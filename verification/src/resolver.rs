//! Executable resolver: maps a bare command name to the path it was first
//! discovered under, earliest discovery winning.

use vstd::prelude::*;

verus! {

/// The path the first entry with the given name carries, if any.
pub open spec fn lookup(es: Seq<(String, String)>, name: Seq<char>) -> Option<Seq<char>>
    decreases es.len(),
{
    if es.len() == 0 {
        None
    } else if es[0].0@ == name {
        Some(es[0].1@)
    } else {
        lookup(es.skip(1), name)
    }
}

proof fn lemma_lookup_push(es: Seq<(String, String)>, e: (String, String), name: Seq<char>)
    ensures
        lookup(es.push(e), name) == (match lookup(es, name) {
            Some(p) => Some(p),
            None => if e.0@ == name {
                Some(e.1@)
            } else {
                None
            },
        }),
    decreases es.len(),
{
    if es.len() == 0 {
        assert(es.push(e)[0] == e);
        assert(es.push(e).skip(1) =~= Seq::<(String, String)>::empty());
        assert(lookup(es, name) is None);
        if e.0@ == name {
            assert(lookup(es.push(e), name) == Some(e.1@));
        } else {
            assert(lookup(es.push(e), name) == lookup(es.push(e).skip(1), name));
            assert(lookup(es.push(e), name) is None);
        }
    } else {
        assert(es.push(e).skip(1) =~= es.skip(1).push(e));
        assert(es.push(e)[0] == es[0]);
        lemma_lookup_push(es.skip(1), e, name);
        if es[0].0@ == name {
            assert(lookup(es.push(e), name) == Some(es[0].1@));
            assert(lookup(es, name) == Some(es[0].1@));
        } else {
            assert(lookup(es.push(e), name) == lookup(es.skip(1).push(e), name));
            assert(lookup(es, name) == lookup(es.skip(1), name));
        }
    }
}

/// Maps command names to absolute paths of runnable files, as the
/// surrounding program discovered them while scanning the search path.
/// The first entry recorded for a name wins; later ones are ignored.
pub struct Resolver {
    pub entries: Vec<(String, String)>,
}

impl Resolver {
    /// What this resolver answers for a name.
    pub open spec fn spec_resolve(self, name: Seq<char>) -> Option<Seq<char>> {
        lookup(self.entries@, name)
    }

    /// An empty resolver: no name resolves.
    pub fn new() -> (r: Resolver)
        ensures
            r.entries@.len() == 0,
            forall|name: Seq<char>| r.spec_resolve(name) is None,
    {
        Resolver { entries: Vec::new() }
    }

    /// The path the name resolves to, or `None` when the name is unknown.
    pub fn resolve(&self, name: &String) -> (r: Option<String>)
        ensures
            match r {
                Some(p) => self.spec_resolve(name@) == Some(p@),
                None => self.spec_resolve(name@) is None,
            },
    {
        proof {
            assert(self.entries@.skip(0) =~= self.entries@);
        }
        let mut i: usize = 0;
        while i < self.entries.len()
            invariant
                0 <= i <= self.entries@.len(),
                lookup(self.entries@, name@) == lookup(self.entries@.skip(i as int), name@),
            decreases self.entries@.len() - i,
        {
            proof {
                assert(self.entries@.skip(i as int)[0] == self.entries@[i as int]);
                assert(self.entries@.skip(i as int).skip(1) =~= self.entries@.skip(i as int + 1));
            }
            let e = &self.entries[i];
            if e.0 == *name {
                return Some(e.1.clone());
            }
            i = i + 1;
        }
        proof {
            assert(self.entries@.skip(i as int) =~= Seq::<(String, String)>::empty());
        }
        None
    }

    /// Records a discovered program.  A name already present keeps its
    /// earlier path: the first discovery wins.
    pub fn add(&mut self, name: String, path: String)
        ensures
            forall|m: Seq<char>|
                #[trigger] final(self).spec_resolve(m) == (match old(self).spec_resolve(m) {
                    Some(p) => Some(p),
                    None => if m == name@ {
                        Some(path@)
                    } else {
                        None
                    },
                }),
    {
        let known = match self.resolve(&name) {
            Some(_) => true,
            None => false,
        };
        if !known {
            let ghost old_es = self.entries@;
            let ghost e = (name, path);
            let ghost gname = name@;
            let ghost gpath = path@;
            self.entries.push((name, path));
            proof {
                assert forall|m: Seq<char>| #[trigger]
                    lookup(self.entries@, m) == (match lookup(old_es, m) {
                        Some(p) => Some(p),
                        None => if m == gname {
                            Some(gpath)
                        } else {
                            None
                        },
                    }) by {
                    lemma_lookup_push(old_es, e, m);
                }
            }
        }
    }
}

} // verus!
