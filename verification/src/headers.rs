//! A small header map and the allow-list projection of backend response
//! headers onto the outbound response.

use vstd::prelude::*;

use crate::strutil::str_equal;

verus! {

/// An ordered map of header names to values. Lookup finds the first entry
/// with the given name; insertion replaces it, or appends a new entry.
pub struct Headers {
    entries: Vec<(String, String)>,
}

impl View for Headers {
    type V = Seq<(Seq<char>, Seq<char>)>;

    closed spec fn view(&self) -> Seq<(Seq<char>, Seq<char>)> {
        Seq::new(self.entries@.len(), |i: int| (self.entries@[i].0@, self.entries@[i].1@))
    }
}

/// The value stored under `name`: that of the first entry carrying it.
pub open spec fn lookup_spec(entries: Seq<(Seq<char>, Seq<char>)>, name: Seq<char>) -> Option<
    Seq<char>,
>
    decreases entries.len(),
{
    if entries.len() == 0 {
        None
    } else if entries[0].0 == name {
        Some(entries[0].1)
    } else {
        lookup_spec(entries.skip(1), name)
    }
}

proof fn lemma_lookup_update(
    s: Seq<(Seq<char>, Seq<char>)>,
    i: int,
    e: (Seq<char>, Seq<char>),
    n: Seq<char>,
)
    requires
        0 <= i < s.len(),
        s[i].0 == e.0,
        forall|k: int| 0 <= k < i ==> (#[trigger] s[k]).0 != e.0,
    ensures
        lookup_spec(s.update(i, e), n) == if n == e.0 {
            Some(e.1)
        } else {
            lookup_spec(s, n)
        },
    decreases s.len(),
{
    let t = s.update(i, e);
    if i == 0 {
        assert(t[0] == e);
        if n != e.0 {
            assert(s[0].0 == e.0);
            assert(t.skip(1) =~= s.skip(1));
        }
    } else {
        assert(t[0] == s[0]);
        assert(s[0].0 != e.0);
        assert(t.skip(1) =~= s.skip(1).update(i - 1, e));
        assert forall|k: int| 0 <= k < i - 1 implies (#[trigger] s.skip(1)[k]).0 != e.0 by {
            assert(s.skip(1)[k] == s[k + 1]);
        }
        lemma_lookup_update(s.skip(1), i - 1, e, n);
    }
}

proof fn lemma_lookup_push(s: Seq<(Seq<char>, Seq<char>)>, e: (Seq<char>, Seq<char>), n: Seq<char>)
    ensures
        lookup_spec(s.push(e), n) == if lookup_spec(s, n) is Some {
            lookup_spec(s, n)
        } else if n == e.0 {
            Some(e.1)
        } else {
            None
        },
    decreases s.len(),
{
    let t = s.push(e);
    if s.len() == 0 {
        assert(t.len() == 1);
        assert(t[0] == e);
        assert(t.skip(1) =~= Seq::<(Seq<char>, Seq<char>)>::empty());
        if e.0 == n {
            assert(lookup_spec(t, n) == Some(e.1));
        } else {
            assert(lookup_spec(t.skip(1), n) is None);
        }
    } else {
        assert(t[0] == s[0]);
        assert(t.skip(1) =~= s.skip(1).push(e));
        lemma_lookup_push(s.skip(1), e, n);
        if s[0].0 == n {
            assert(lookup_spec(t, n) == Some(s[0].1));
            assert(lookup_spec(s, n) == Some(s[0].1));
        } else {
            assert(lookup_spec(t, n) == lookup_spec(s.skip(1).push(e), n));
            assert(lookup_spec(s, n) == lookup_spec(s.skip(1), n));
        }
    }
}

proof fn lemma_lookup_absent(s: Seq<(Seq<char>, Seq<char>)>, n: Seq<char>)
    requires
        forall|k: int| 0 <= k < s.len() ==> (#[trigger] s[k]).0 != n,
    ensures
        lookup_spec(s, n) is None,
    decreases s.len(),
{
    if s.len() > 0 {
        assert forall|k: int| 0 <= k < s.skip(1).len() implies (#[trigger] s.skip(1)[k]).0 != n by {
            assert(s.skip(1)[k] == s[k + 1]);
        }
        lemma_lookup_absent(s.skip(1), n);
    }
}

impl Headers {
    /// An empty header map.
    pub fn new() -> (r: Headers)
        ensures
            r@ =~= Seq::<(Seq<char>, Seq<char>)>::empty(),
    {
        let r = Headers { entries: Vec::new() };
        proof {
            assert(r@ =~= Seq::<(Seq<char>, Seq<char>)>::empty());
        }
        r
    }

    /// How many entries the map holds.
    pub fn len(&self) -> (r: usize)
        ensures
            r == self@.len(),
    {
        self.entries.len()
    }

    /// The entries in insertion order, for rendering the map outward.
    pub fn entries(&self) -> (r: &Vec<(String, String)>)
        ensures
            r@.len() == self@.len(),
            forall|i: int|
                0 <= i < r@.len() ==> #[trigger] self@[i] == (r@[i].0@, r@[i].1@),
    {
        &self.entries
    }

    /// The value stored under `name`, if any.
    pub fn get(&self, name: &str) -> (r: Option<&String>)
        ensures
            match r {
                Some(v) => lookup_spec(self@, name@) == Some(v@),
                None => lookup_spec(self@, name@) is None,
            },
    {
        let n = self.entries.len();
        let mut i: usize = 0;
        proof {
            assert(self@.skip(0) =~= self@);
        }
        while i < n
            invariant
                i <= n,
                n == self.entries@.len(),
                n == self@.len(),
                lookup_spec(self@, name@) == lookup_spec(self@.skip(i as int), name@),
                forall|k: int|
                    0 <= k < self@.len() ==> #[trigger] self@[k] == (
                        self.entries@[k].0@,
                        self.entries@[k].1@,
                    ),
            decreases n - i,
        {
            proof {
                assert(self@.skip(i as int)[0] == self@[i as int]);
            }
            if str_equal(self.entries[i].0.as_str(), name) {
                return Some(&self.entries[i].1);
            }
            proof {
                assert(self@.skip(i as int).skip(1) =~= self@.skip(i as int + 1));
            }
            i += 1;
        }
        proof {
            assert(self@.skip(n as int).len() == 0);
        }
        None
    }

    /// Stores `value` under `name`, replacing any value already there;
    /// every other name keeps its value.
    pub fn insert(&mut self, name: &str, value: String)
        ensures
            lookup_spec(final(self)@, name@) == Some(value@),
            forall|n: Seq<char>|
                n != name@ ==> #[trigger] lookup_spec(final(self)@, n) == lookup_spec(
                    old(self)@,
                    n,
                ),
    {
        let count = self.entries.len();
        let mut i: usize = 0;
        while i < count
            invariant
                i <= count,
                count == self.entries@.len(),
                *self == *old(self),
                forall|k: int| 0 <= k < i ==> (#[trigger] self@[k]).0 != name@,
                forall|k: int|
                    0 <= k < self@.len() ==> #[trigger] self@[k] == (
                        self.entries@[k].0@,
                        self.entries@[k].1@,
                    ),
            decreases count - i,
        {
            if str_equal(self.entries[i].0.as_str(), name) {
                let ghost pre = self@;
                let _replaced = self.entries.remove(i);
                self.entries.insert(i, (name.to_owned(), value));
                proof {
                    assert(self@ =~= pre.update(i as int, (name@, value@)));
                    assert forall|n: Seq<char>| true implies #[trigger] lookup_spec(
                        self@,
                        n,
                    ) == if n == name@ {
                        Some(value@)
                    } else {
                        lookup_spec(pre, n)
                    } by {
                        lemma_lookup_update(pre, i as int, (name@, value@), n);
                    }
                }
                return ;
            }
            i += 1;
        }
        let ghost pre = self@;
        self.entries.push((name.to_owned(), value));
        proof {
            assert(self@ =~= pre.push((name@, value@)));
            lemma_lookup_absent(pre, name@);
            assert forall|n: Seq<char>| true implies #[trigger] lookup_spec(
                self@,
                n,
            ) == if n == name@ {
                Some(value@)
            } else {
                lookup_spec(pre, n)
            } by {
                lemma_lookup_push(pre, (name@, value@), n);
            }
        }
    }
}

/// Copies each header named in `names` from `source` into `destination`
/// when the source holds it; names the source lacks are skipped, and every
/// header not named keeps its value in `destination`.
pub fn copy_headers(destination: &mut Headers, source: &Headers, names: &Vec<String>)
    ensures
        forall|n: Seq<char>|
            #[trigger] lookup_spec(final(destination)@, n) == if names.deep_view().contains(n)
                && lookup_spec(source@, n) is Some {
                lookup_spec(source@, n)
            } else {
                lookup_spec(old(destination)@, n)
            },
{
    let count = names.len();
    let mut i: usize = 0;
    proof {
        assert(names.deep_view().take(0) =~= Seq::<Seq<char>>::empty());
    }
    while i < count
        invariant
            i <= count,
            count == names@.len(),
            names.deep_view().len() == names@.len(),
            forall|k: int| 0 <= k < names@.len() ==> names.deep_view()[k] == names@[k]@,
            forall|n: Seq<char>|
                #[trigger] lookup_spec(destination@, n) == if names.deep_view().take(
                    i as int,
                ).contains(n) && lookup_spec(source@, n) is Some {
                    lookup_spec(source@, n)
                } else {
                    lookup_spec(old(destination)@, n)
                },
        decreases count - i,
    {
        let ghost taken = names.deep_view().take(i as int);
        let ghost taken_next = names.deep_view().take(i as int + 1);
        proof {
            assert(taken_next =~= taken.push(names@[i as int]@));
            assert forall|n: Seq<char>| #[trigger] taken_next.contains(n) implies taken.contains(n)
                || n == names@[i as int]@ by {
                let w = choose|w: int| 0 <= w < taken_next.len() && taken_next[w] == n;
                if w < taken.len() {
                    assert(taken[w] == n);
                }
            }
            assert forall|n: Seq<char>| taken.contains(n) implies taken_next.contains(n) by {
                let w = choose|w: int| 0 <= w < taken.len() && taken[w] == n;
                assert(taken_next[w] == n);
            }
            assert(taken_next[i as int] == names@[i as int]@);
            assert(taken_next.contains(names@[i as int]@));
        }
        let name = &names[i];
        match source.get(name.as_str()) {
            Some(v) => {
                destination.insert(name.as_str(), v.clone());
            },
            None => {},
        }
        i += 1;
    }
    proof {
        assert(names.deep_view().take(count as int) =~= names.deep_view());
    }
}

} // verus!
