//! Composition of template contexts: the accumulated mapping from exported
//! binding names to values, built by folding each include template's exports
//! in order, later exports overwriting earlier ones of the same name.

use vstd::prelude::*;

verus! {

/// The mapping an entry list denotes: entries applied in order, so a later
/// entry with the same name wins.
pub open spec fn map_of_entries<V>(s: Seq<(String, V)>) -> Map<Seq<char>, V>
    decreases s.len(),
{
    if s.len() == 0 {
        Map::empty()
    } else {
        map_of_entries(s.drop_last()).insert(s.last().0@, s.last().1)
    }
}

/// A mapping after merging an export list into it, in order.
pub open spec fn spec_merge<V>(m: Map<Seq<char>, V>, s: Seq<(String, V)>) -> Map<Seq<char>, V>
    decreases s.len(),
{
    if s.len() == 0 {
        m
    } else {
        spec_merge(m, s.drop_last()).insert(s.last().0@, s.last().1)
    }
}

/// The accumulated context a main template is rendered against: a mapping
/// from binding name to value, grown one exported binding at a time.
pub struct TemplateContext<V> {
    entries: Vec<(String, V)>,
}

impl<V> TemplateContext<V> {
    /// The mapping this context denotes.
    pub closed spec fn as_map(&self) -> Map<Seq<char>, V> {
        map_of_entries(self.entries@)
    }

    /// An empty context, the starting point of every composition.
    pub fn new() -> (res: Self)
        ensures
            res.as_map() == Map::<Seq<char>, V>::empty(),
    {
        TemplateContext { entries: Vec::new() }
    }

    /// Binds `name` to `value`, overwriting any earlier binding of `name`.
    pub fn insert(&mut self, name: String, value: V)
        ensures
            final(self).as_map() == old(self).as_map().insert(name@, value),
    {
        let ghost before = self.entries@;
        self.entries.push((name, value));
        proof {
            assert(self.entries@.drop_last() =~= before);
        }
    }

    /// Merges a whole export list into the context, in list order.
    pub fn merge(&mut self, mut exports: Vec<(String, V)>)
        ensures
            final(self).as_map() == spec_merge(old(self).as_map(), exports@),
    {
        let ghost all = exports@;
        let ghost m0 = self.as_map();
        let total: usize = exports.len();
        let mut done: usize = 0;
        proof {
            assert(all.take(0) =~= Seq::<(String, V)>::empty());
        }
        while exports.len() > 0
            invariant
                total == all.len(),
                done <= total,
                done + exports@.len() == all.len(),
                exports@ =~= all.skip(done as int),
                self.as_map() == spec_merge(m0, all.take(done as int)),
            decreases exports@.len(),
        {
            let e = exports.remove(0);
            self.insert(e.0, e.1);
            done = done + 1;
            proof {
                assert(all.take(done as int).drop_last() =~= all.take(done as int - 1));
                assert(exports@ =~= all.skip(done as int));
            }
        }
        proof {
            assert(all.take(all.len() as int) =~= all);
        }
    }

    /// Looks the name up in the accumulated mapping.
    pub fn get(&self, name: &str) -> (res: Option<&V>)
        ensures
            match res {
                Some(v) => self.as_map().contains_key(name@) && *v == self.as_map()[name@],
                None => !self.as_map().contains_key(name@),
            },
    {
        let n = self.entries.len();
        let mut i: usize = n;
        while i > 0
            invariant
                i <= n,
                n == self.entries@.len(),
                forall|k: int| i <= k < n ==> self.entries@[k].0@ != name@,
            decreases i,
        {
            i = i - 1;
            if str_eq(self.entries[i].0.as_str(), name) {
                proof {
                    lemma_map_of_entries_found(self.entries@, i as int);
                }
                return Some(&self.entries[i].1);
            }
        }
        proof {
            lemma_map_of_entries_missing(self.entries@, name@);
        }
        None
    }

    /// The entry list behind the context, for handing the bindings on to a
    /// consumer; applying the entries in order yields the same mapping.
    pub fn entries(&self) -> (res: &Vec<(String, V)>)
        ensures
            map_of_entries(res@) == self.as_map(),
    {
        &self.entries
    }
}

/// Character-by-character string equality.
fn str_eq(a: &str, b: &str) -> (res: bool)
    ensures
        res == (a@ == b@),
{
    let alen = a.unicode_len();
    let blen = b.unicode_len();
    if alen != blen {
        return false;
    }
    let mut i: usize = 0;
    while i < alen
        invariant
            alen == a@.len(),
            blen == b@.len(),
            alen == blen,
            i <= alen,
            forall|k: int| 0 <= k < i ==> a@[k] == b@[k],
        decreases alen - i,
    {
        if a.get_char(i) != b.get_char(i) {
            return false;
        }
        i += 1;
    }
    proof {
        assert(a@ =~= b@);
    }
    true
}

/// If the entry at `i` is the last one bearing its name, the denoted mapping
/// holds that entry's value for it.
proof fn lemma_map_of_entries_found<V>(s: Seq<(String, V)>, i: int)
    requires
        0 <= i < s.len(),
        forall|k: int| i < k < s.len() ==> s[k].0@ != s[i].0@,
    ensures
        map_of_entries(s).contains_key(s[i].0@),
        map_of_entries(s)[s[i].0@] == s[i].1,
    decreases s.len(),
{
    if i < s.len() - 1 {
        assert(s.drop_last()[i] == s[i]);
        lemma_map_of_entries_found(s.drop_last(), i);
    }
}

/// A name borne by no entry is absent from the denoted mapping.
proof fn lemma_map_of_entries_missing<V>(s: Seq<(String, V)>, name: Seq<char>)
    requires
        forall|k: int| 0 <= k < s.len() ==> s[k].0@ != name,
    ensures
        !map_of_entries(s).contains_key(name),
    decreases s.len(),
{
    if s.len() > 0 {
        lemma_map_of_entries_missing(s.drop_last(), name);
    }
}

/// Later includes win: when two exports bind the same name one after the
/// other, the accumulated context holds the later value, and the earlier
/// binding leaves no trace.
pub proof fn lemma_later_export_wins<V>(m: Map<Seq<char>, V>, x: Seq<char>, a: V, b: V)
    ensures
        m.insert(x, a).insert(x, b) == m.insert(x, b),
        m.insert(x, a).insert(x, b)[x] == b,
{
    assert(m.insert(x, a).insert(x, b) =~= m.insert(x, b));
}

} // verus!
