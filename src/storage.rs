//! The text of open documents, by path. A later load of a path replaces its text.
use vstd::prelude::*;
use vstd::string::StringExecFns;

verus! {

/// The text stored under `key`: that of the first entry with this key.
pub open spec fn lookup(s: Seq<(Seq<char>, Seq<char>)>, key: Seq<char>) -> Option<Seq<char>>
    decreases s.len(),
{
    if s.len() == 0 {
        None
    } else if s[0].0 == key {
        Some(s[0].1)
    } else {
        lookup(s.drop_first(), key)
    }
}

proof fn lemma_lookup_push(s: Seq<(Seq<char>, Seq<char>)>, e: (Seq<char>, Seq<char>), key: Seq<char>)
    ensures
        lookup(s.push(e), key) == if lookup(s, key) is Some {
            lookup(s, key)
        } else if e.0 == key {
            Some(e.1)
        } else {
            None::<Seq<char>>
        },
    decreases s.len(),
{
    if s.len() > 0 {
        assert(s.push(e)[0] == s[0]);
        assert(s.push(e).drop_first() =~= s.drop_first().push(e));
        lemma_lookup_push(s.drop_first(), e, key);
    } else {
        assert(s.push(e)[0] == e);
        assert(s.push(e).drop_first() =~= s);
    }
}

proof fn lemma_lookup_update(s: Seq<(Seq<char>, Seq<char>)>, i: int, v: Seq<char>, key: Seq<char>)
    requires
        0 <= i < s.len(),
        forall|j: int| 0 <= j < i ==> s[j].0 != s[i].0,
    ensures
        lookup(s.update(i, (s[i].0, v)), key) == if key == s[i].0 {
            Some(v)
        } else {
            lookup(s, key)
        },
    decreases s.len(),
{
    let u = s.update(i, (s[i].0, v));
    if i == 0 {
        assert(u.drop_first() =~= s.drop_first());
    } else {
        let t = s.drop_first();
        assert(u[0] == s[0]);
        assert(u.drop_first() =~= t.update(i - 1, (t[i - 1].0, v)));
        assert forall|j: int| 0 <= j < i - 1 implies (#[trigger] t[j]).0 != t[i - 1].0 by {
            assert(t[j] == s[j + 1]);
        }
        lemma_lookup_update(t, i - 1, v, key);
    }
}

proof fn lemma_lookup_absent(s: Seq<(Seq<char>, Seq<char>)>, key: Seq<char>)
    requires
        forall|j: int| 0 <= j < s.len() ==> s[j].0 != key,
    ensures
        lookup(s, key) is None,
    decreases s.len(),
{
    if s.len() > 0 {
        lemma_lookup_absent(s.drop_first(), key);
    }
}

proof fn lemma_lookup_first(s: Seq<(Seq<char>, Seq<char>)>, i: int, key: Seq<char>)
    requires
        0 <= i < s.len(),
        s[i].0 == key,
        forall|j: int| 0 <= j < i ==> s[j].0 != key,
    ensures
        lookup(s, key) == Some(s[i].1),
    decreases s.len(),
{
    if i > 0 {
        lemma_lookup_first(s.drop_first(), i - 1, key);
    }
}

pub struct Storage {
    /// Documents as (path, text), searched in order. vstd gives a map keyed by `String`
    /// no specification of its lookups, so the map is kept as a vector instead; `load`
    /// replaces the entry of a path it already holds.
    documents: Vec<(String, String)>,
}

impl Storage {
    pub closed spec fn entries(&self) -> Seq<(Seq<char>, Seq<char>)> {
        self.documents@.map_values(|d: (String, String)| (d.0@, d.1@))
    }

    /// The text stored under `path`, if any.
    pub open spec fn document(&self, path: Seq<char>) -> Option<Seq<char>> {
        lookup(self.entries(), path)
    }

    pub fn new() -> (r: Storage)
        ensures
            forall|p: Seq<char>| #[trigger] r.document(p) is None,
    {
        let r = Storage { documents: Vec::new() };
        proof {
            assert forall|p: Seq<char>| #[trigger] r.document(p) is None by {
                lemma_lookup_absent(r.entries(), p);
            }
        }
        r
    }

    /// The position of the first entry for `path`.
    fn find(&self, path: &String) -> (r: Option<usize>)
        ensures
            match r {
                Some(i) => i < self.entries().len() && self.entries()[i as int].0 == path@ && forall|
                    j: int,
                | 0 <= j < i ==> self.entries()[j].0 != path@,
                None => forall|j: int| 0 <= j < self.entries().len() ==> self.entries()[j].0 != path@,
            },
    {
        let mut i: usize = 0;
        while i < self.documents.len()
            invariant
                i <= self.documents@.len(),
                forall|j: int| 0 <= j < i ==> self.entries()[j].0 != path@,
            decreases self.documents@.len() - i,
        {
            if self.documents[i].0 == *path {
                return Some(i);
            }
            i = i + 1;
        }
        None
    }

    /// Stores `data` as the text of `path`, in place of any earlier text.
    pub fn load(&mut self, path: &str, data: &str)
        ensures
            forall|p: Seq<char>|
                #[trigger] final(self).document(p) == if p == path@ {
                    Some(data@)
                } else {
                    old(self).document(p)
                },
    {
        let key = String::from_str(path);
        let text = String::from_str(data);
        let ghost before = self.entries();
        match self.find(&key) {
            Some(i) => {
                self.documents.set(i, (key, text));
                proof {
                    assert(self.entries() =~= before.update(i as int, (before[i as int].0, data@)));
                    assert forall|p: Seq<char>|
                        #[trigger] self.document(p) == if p == path@ {
                            Some(data@)
                        } else {
                            lookup(before, p)
                        } by {
                        lemma_lookup_update(before, i as int, data@, p);
                    }
                }
            },
            None => {
                self.documents.push((key, text));
                proof {
                    assert(self.entries() =~= before.push((path@, data@)));
                    assert forall|p: Seq<char>|
                        #[trigger] self.document(p) == if p == path@ {
                            Some(data@)
                        } else {
                            lookup(before, p)
                        } by {
                        lemma_lookup_push(before, (path@, data@), p);
                        if p == path@ {
                            lemma_lookup_absent(before, p);
                        }
                    }
                }
            },
        }
    }

    /// The text stored under `path`, if any.
    pub fn get(&self, path: &str) -> (r: Option<String>)
        ensures
            r is Some <==> self.document(path@) is Some,
            r matches Some(t) ==> self.document(path@) == Some(t@),
    {
        let key = String::from_str(path);
        match self.find(&key) {
            Some(i) => {
                proof {
                    lemma_lookup_first(self.entries(), i as int, path@);
                }
                Some(self.documents[i].1.clone())
            },
            None => {
                proof {
                    lemma_lookup_absent(self.entries(), path@);
                }
                None
            },
        }
    }
}

} // verus!
