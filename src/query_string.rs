//! The query part of a request path: `&`-separated `key=value` pairs gathered by key.
use vstd::prelude::*;
use crate::text::{first_of, find_first, split_on, split_text, lemma_first_of_range, same_text};

verus! {

/// The value(s) given for one key: one occurrence, or every occurrence in order.
#[derive(Debug)]
pub enum Value {
    Single(String),
    Multiple(Vec<String>),
}

impl View for Value {
    type V = Seq<Seq<char>>;

    /// Every value given for the key, in order of appearance.
    open spec fn view(&self) -> Seq<Seq<char>> {
        match self {
            Value::Single(v) => seq![v@],
            Value::Multiple(vs) => vs@.map_values(|x: String| x@),
        }
    }
}

impl Value {
    /// A key seen more than once holds all its values in `Multiple`.
    pub open spec fn wf(&self) -> bool {
        match self {
            Value::Single(_) => true,
            Value::Multiple(vs) => vs.len() >= 2,
        }
    }
}

#[derive(Debug)]
struct Entry {
    key: String,
    value: Value,
}

/// The parameters of a query, by key.
#[derive(Debug)]
pub struct QueryString {
    entries: Vec<Entry>,
}

/// The key of one `&`-separated fragment: the text before its first `=`, or all of it.
pub open spec fn key_of(f: Seq<char>) -> Seq<char> {
    let k = first_of(f, '=', '=');
    if k < 0 {
        f
    } else {
        f.take(k)
    }
}

/// The value of one fragment: the text after its first `=`, or empty text.
pub open spec fn value_of(f: Seq<char>) -> Seq<char> {
    let k = first_of(f, '=', '=');
    if k < 0 {
        Seq::empty()
    } else {
        f.skip(k + 1)
    }
}

/// `m` after one more occurrence of key `k` with value `v`.
pub open spec fn add_value(
    m: Map<Seq<char>, Seq<Seq<char>>>,
    k: Seq<char>,
    v: Seq<char>,
) -> Map<Seq<char>, Seq<Seq<char>>> {
    if m.contains_key(k) {
        m.insert(k, m[k].push(v))
    } else {
        m.insert(k, seq![v])
    }
}

/// The fragments gathered left to right into key -> all values of that key.
pub open spec fn gather(fs: Seq<Seq<char>>) -> Map<Seq<char>, Seq<Seq<char>>>
    decreases fs.len(),
{
    if fs.len() == 0 {
        Map::empty()
    } else {
        add_value(gather(fs.drop_last()), key_of(fs.last()), value_of(fs.last()))
    }
}

/// What a query text means: each key with all its values, in order of appearance.
pub open spec fn parse_query(s: Seq<char>) -> Map<Seq<char>, Seq<Seq<char>>> {
    gather(split_on(s, '&'))
}

/// Gathering keeps every fragment: each fragment's key is present with that fragment's value
/// among its values, and every key present is the key of some fragment.
pub proof fn lemma_gather_members(fs: Seq<Seq<char>>)
    ensures
        forall|i: int|
            0 <= i < fs.len() ==> #[trigger] gather(fs).contains_key(key_of(fs[i])) && gather(
                fs,
            )[key_of(fs[i])].contains(value_of(fs[i])),
        forall|k: Seq<char>|
            #[trigger] gather(fs).contains_key(k) ==> exists|i: int|
                0 <= i < fs.len() && key_of(fs[i]) == k,
    decreases fs.len(),
{
    if fs.len() > 0 {
        let d = fs.drop_last();
        let m = gather(d);
        let lk = key_of(fs.last());
        let lv = value_of(fs.last());
        lemma_gather_members(d);
        assert forall|i: int| 0 <= i < fs.len() implies #[trigger] gather(fs).contains_key(
            key_of(fs[i]),
        ) && gather(fs)[key_of(fs[i])].contains(value_of(fs[i])) by {
            if i == fs.len() - 1 {
                if m.contains_key(lk) {
                    assert(m[lk].push(lv)[m[lk].len() as int] == lv);
                } else {
                    assert(seq![lv][0] == lv);
                }
            } else {
                assert(d[i] == fs[i]);
                assert(m.contains_key(key_of(d[i])));
                let w = value_of(fs[i]);
                let j = choose|j: int| 0 <= j < m[key_of(d[i])].len() && m[key_of(d[i])][j] == w;
                if key_of(fs[i]) == lk {
                    assert(m[lk].push(lv)[j] == w);
                }
            }
        }
        assert forall|k: Seq<char>| #[trigger] gather(fs).contains_key(k) implies exists|i: int|
            0 <= i < fs.len() && key_of(fs[i]) == k by {
            if k != lk {
                assert(m.contains_key(k));
                let i = choose|i: int| 0 <= i < d.len() && key_of(d[i]) == k;
                assert(fs[i] == d[i]);
            } else {
                assert(key_of(fs[fs.len() - 1]) == k);
            }
        }
    }
}

spec fn distinct(es: Seq<Entry>) -> bool {
    forall|i: int, j: int| 0 <= i < j < es.len() ==> es[i].key@ != es[j].key@
}

spec fn entries_map(es: Seq<Entry>) -> Map<Seq<char>, Seq<Seq<char>>>
    decreases es.len(),
{
    if es.len() == 0 {
        Map::empty()
    } else {
        entries_map(es.drop_last()).insert(es.last().key@, es.last().value@)
    }
}

proof fn lemma_lookup(es: Seq<Entry>)
    requires
        distinct(es),
    ensures
        forall|i: int|
            0 <= i < es.len() ==> #[trigger] entries_map(es).contains_key(es[i].key@)
                && entries_map(es)[es[i].key@] == es[i].value@,
        forall|k: Seq<char>|
            #[trigger] entries_map(es).contains_key(k) ==> exists|i: int|
                0 <= i < es.len() && es[i].key@ == k,
    decreases es.len(),
{
    if es.len() > 0 {
        let d = es.drop_last();
        assert(distinct(d)) by {
            assert forall|i: int, j: int| 0 <= i < j < d.len() implies d[i].key@ != d[j].key@ by {
                assert(d[i] == es[i] && d[j] == es[j]);
            }
        }
        lemma_lookup(d);
        assert forall|i: int| 0 <= i < es.len() implies #[trigger] entries_map(es).contains_key(
            es[i].key@,
        ) && entries_map(es)[es[i].key@] == es[i].value@ by {
            if i < es.len() - 1 {
                assert(d[i] == es[i]);
                assert(es[i].key@ != es.last().key@);
                assert(entries_map(d).contains_key(d[i].key@));
            }
        }
        assert forall|k: Seq<char>| #[trigger] entries_map(es).contains_key(k) implies exists|i: int|
            0 <= i < es.len() && es[i].key@ == k by {
            if k != es.last().key@ {
                assert(entries_map(d).contains_key(k));
                let i = choose|i: int| 0 <= i < d.len() && d[i].key@ == k;
                assert(es[i] == d[i]);
            }
        }
    }
}

proof fn lemma_update(es: Seq<Entry>, j: int, e: Entry)
    requires
        distinct(es),
        0 <= j < es.len(),
        e.key@ == es[j].key@,
    ensures
        entries_map(es.update(j, e)) == entries_map(es).insert(e.key@, e.value@),
    decreases es.len(),
{
    let u = es.update(j, e);
    if j == es.len() - 1 {
        assert(u.drop_last() =~= es.drop_last());
        assert(entries_map(u) =~= entries_map(es).insert(e.key@, e.value@));
    } else {
        let d = es.drop_last();
        lemma_update(d, j, e);
        assert(u.drop_last() =~= d.update(j, e));
        assert(es.last().key@ != e.key@);
        assert(entries_map(u) =~= entries_map(es).insert(e.key@, e.value@));
    }
}

impl View for QueryString {
    type V = Map<Seq<char>, Seq<Seq<char>>>;

    /// Each key with every value given for it, in order of appearance.
    closed spec fn view(&self) -> Map<Seq<char>, Seq<Seq<char>>> {
        entries_map(self.entries@)
    }
}

impl QueryString {
    /// Keys are unique, and a key seen more than once holds all its values in `Multiple`.
    #[verifier::type_invariant]
    spec fn inv(self) -> bool {
        distinct(self.entries@) && forall|i: int|
            0 <= i < self.entries@.len() ==> (#[trigger] self.entries@[i]).value.wf()
    }

    /// Looks a key up by exact match.
    pub fn get(&self, key: &str) -> (r: Option<&Value>)
        ensures
            match r {
                Some(v) => self@.contains_key(key@) && v@ == self@[key@] && v.wf(),
                None => !self@.contains_key(key@),
            },
    {
        let mut j: usize = 0;
        while j < self.entries.len()
            invariant
                j <= self.entries@.len(),
                forall|i: int| 0 <= i < j ==> self.entries@[i].key@ != key@,
            decreases self.entries@.len() - j,
        {
            if same_text(self.entries[j].key.as_str(), key) {
                proof {
                    use_type_invariant(self);
                    lemma_lookup(self.entries@);
                }
                return Some(&self.entries[j].value);
            }
            j = j + 1;
        }
        proof {
            use_type_invariant(self);
            lemma_lookup(self.entries@);
        }
        None
    }

    /// Parses the text after a path's `?`; values are kept exactly as written.
    pub fn from(s: &str) -> (r: QueryString)
        ensures
            r@ == parse_query(s@),
    {
        let frags = split_text(s, '&');
        let ghost fs = frags@.map_values(|p: String| p@);
        let mut entries: Vec<Entry> = Vec::new();
        let mut i: usize = 0;
        assert(fs.take(0) =~= Seq::<Seq<char>>::empty());
        while i < frags.len()
            invariant
                fs == frags@.map_values(|p: String| p@),
                i <= frags@.len(),
                distinct(entries@),
                forall|n: int| 0 <= n < entries@.len() ==> (#[trigger] entries@[n]).value.wf(),
                entries_map(entries@) == gather(fs.take(i as int)),
            decreases frags@.len() - i,
        {
            let (key, val) = key_value(frags[i].as_str());
            add_entry(&mut entries, key, val);
            proof {
                assert(fs.take(i + 1).drop_last() =~= fs.take(i as int));
                assert(fs.take(i + 1).last() == fs[i as int]);
            }
            i = i + 1;
        }
        assert(fs.take(frags@.len() as int) =~= fs);
        QueryString { entries }
    }
}

/// Splits one fragment at its first `=`.
fn key_value(f: &str) -> (r: (String, String))
    ensures
        r.0@ == key_of(f@),
        r.1@ == value_of(f@),
{
    proof {
        lemma_first_of_range(f@, '=', '=');
    }
    match find_first(f, '=', '=') {
        Some(k) => {
            let n = f.unicode_len();
            let key = f.substring_char(0, k).to_owned();
            let val = f.substring_char(k + 1, n).to_owned();
            assert(key@ =~= f@.take(k as int));
            assert(val@ =~= f@.skip(k + 1));
            (key, val)
        },
        None => (f.to_owned(), String::new()),
    }
}

/// Records one more occurrence of `key` with value `val`.
fn add_entry(entries: &mut Vec<Entry>, key: String, val: String)
    requires
        distinct(old(entries)@),
        forall|n: int| 0 <= n < old(entries)@.len() ==> (#[trigger] old(entries)@[n]).value.wf(),
    ensures
        distinct(final(entries)@),
        forall|n: int|
            0 <= n < final(entries)@.len() ==> (#[trigger] final(entries)@[n]).value.wf(),
        entries_map(final(entries)@) == add_value(entries_map(old(entries)@), key@, val@),
{
    proof {
        lemma_lookup(entries@);
    }
    let ghost es = entries@;
    let mut j: usize = 0;
    while j < entries.len()
        invariant
            entries@ == es,
            es == old(entries)@,
            distinct(es),
            forall|n: int| 0 <= n < es.len() ==> (#[trigger] es[n]).value.wf(),
            forall|i: int| 0 <= i < es.len() ==> #[trigger] entries_map(es).contains_key(es[i].key@)
                && entries_map(es)[es[i].key@] == es[i].value@,
            forall|k: Seq<char>| #[trigger] entries_map(es).contains_key(k) ==> exists|i: int|
                0 <= i < es.len() && es[i].key@ == k,
            j <= es.len(),
            forall|i: int| 0 <= i < j ==> es[i].key@ != key@,
        decreases es.len() - j,
    {
        if entries[j].key == key {
            let e = entries.remove(j);
            let value = match e.value {
                Value::Single(prev) => {
                    let mut vs: Vec<String> = Vec::new();
                    vs.push(prev);
                    vs.push(val);
                    let value = Value::Multiple(vs);
                    assert(value@ =~= seq![prev@, val@]);
                    value
                },
                Value::Multiple(vs) => {
                    let ghost before = vs@;
                    let mut vs = vs;
                    vs.push(val);
                    let value = Value::Multiple(vs);
                    assert(value@ =~= before.map_values(|x: String| x@).push(val@));
                    value
                },
            };
            let ne = Entry { key: e.key, value };
            entries.insert(j, ne);
            proof {
                assert(entries@ =~= es.update(j as int, ne));
                lemma_update(es, j as int, ne);
                assert(es[j as int].key@ == key@);
                assert(entries_map(es).contains_key(es[j as int].key@));
                assert(e == es[j as int]);
                assert(ne.value@ == es[j as int].value@.push(val@));
                assert(ne.key@ == key@);
                assert(entries_map(entries@) == entries_map(es).insert(key@, ne.value@));
                assert(add_value(entries_map(es), key@, val@) == entries_map(es).insert(
                    key@,
                    entries_map(es)[key@].push(val@),
                ));
            }
            return;
        }
        j = j + 1;
    }
    entries.push(Entry { key, value: Value::Single(val) });
    assert(entries@.drop_last() =~= es);
}

} // verus!
