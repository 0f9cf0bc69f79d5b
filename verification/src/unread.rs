//! Per-chat unread counters: a mapping from chat id to a non-negative
//! count.  A chat with no entry counts as zero unread.

use vstd::prelude::*;
use vstd::string::*;

verus! {

/// First-match lookup in a sequence of id/count entries.
pub open spec fn spec_lookup(s: Seq<(Seq<char>, i32)>, id: Seq<char>) -> Option<i32>
    decreases s.len(),
{
    if s.len() == 0 {
        Option::None
    } else if s[0].0 == id {
        Option::Some(s[0].1)
    } else {
        spec_lookup(s.drop_first(), id)
    }
}

/// The unread-count store, a mapping from chat id to count.
#[derive(Debug)]
pub struct UnreadCounts {
    entries: Vec<(String, i32)>,
}

impl View for UnreadCounts {
    type V = Seq<(Seq<char>, i32)>;

    closed spec fn view(&self) -> Seq<(Seq<char>, i32)> {
        self.entries@.map_values(|e: (String, i32)| (e.0@, e.1))
    }
}

proof fn lemma_lookup_skip(s: Seq<(Seq<char>, i32)>, id: Seq<char>, i: int)
    requires
        0 <= i <= s.len(),
        forall|k: int| 0 <= k < i ==> s[k].0 != id,
    ensures
        spec_lookup(s, id) == spec_lookup(s.skip(i), id),
    decreases i,
{
    if i == 0 {
        assert(s.skip(0) =~= s);
    } else {
        assert(s.drop_first().skip(i - 1) =~= s.skip(i));
        lemma_lookup_skip(s.drop_first(), id, i - 1);
    }
}

proof fn lemma_lookup_update(s: Seq<(Seq<char>, i32)>, i: int, v: i32, k: Seq<char>)
    requires
        0 <= i < s.len(),
        forall|k1: int, k2: int|
            0 <= k1 < k2 < s.len() ==> s[k1].0 != s[k2].0,
    ensures
        spec_lookup(s.update(i, (s[i].0, v)), k) == if k == s[i].0 {
            Option::Some(v)
        } else {
            spec_lookup(s, k)
        },
    decreases s.len(),
{
    let t = s.update(i, (s[i].0, v));
    if i == 0 {
        assert(t[0] == (s[0].0, v));
        assert(t.drop_first() =~= s.drop_first());
    } else {
        assert(t[0] == s[0]);
        assert(t.drop_first() =~= s.drop_first().update(i - 1, (s[i].0, v)));
        assert(s.drop_first()[i - 1] == s[i]);
        lemma_lookup_update(s.drop_first(), i - 1, v, k);
    }
}

proof fn lemma_lookup_push(s: Seq<(Seq<char>, i32)>, id: Seq<char>, v: i32, k: Seq<char>)
    ensures
        spec_lookup(s.push((id, v)), k) == if spec_lookup(s, k) is Some {
            spec_lookup(s, k)
        } else if k == id {
            Option::Some(v)
        } else {
            Option::<i32>::None
        },
    decreases s.len(),
{
    let t = s.push((id, v));
    if s.len() == 0 {
        assert(t[0] == (id, v));
        assert(t.drop_first() =~= Seq::<(Seq<char>, i32)>::empty());
    } else {
        assert(t[0] == s[0]);
        assert(t.drop_first() =~= s.drop_first().push((id, v)));
        lemma_lookup_push(s.drop_first(), id, v, k);
    }
}

proof fn lemma_lookup_nonneg(s: Seq<(Seq<char>, i32)>, k: Seq<char>)
    requires
        forall|i: int| 0 <= i < s.len() ==> s[i].1 >= 0,
    ensures
        spec_lookup(s, k) is Some ==> spec_lookup(s, k)->0 >= 0,
    decreases s.len(),
{
    if s.len() > 0 && s[0].0 != k {
        lemma_lookup_nonneg(s.drop_first(), k);
    }
}

impl UnreadCounts {
    /// Ids are unique and every count is non-negative.
    pub open spec fn wf(self) -> bool {
        &&& forall|k1: int, k2: int|
            0 <= k1 < k2 < self@.len() ==> self@[k1].0 != self@[k2].0
        &&& forall|k: int| 0 <= k < self@.len() ==> self@[k].1 >= 0
    }

    /// The count recorded for `id`, or `None` when no entry exists.
    pub open spec fn spec_get(self, id: Seq<char>) -> Option<i32> {
        spec_lookup(self@, id)
    }

    /// The effective unread count of `id`: an absent entry counts as zero.
    pub open spec fn spec_count(self, id: Seq<char>) -> int {
        match self.spec_get(id) {
            Option::Some(v) => v as int,
            Option::None => 0,
        }
    }

    pub fn new() -> (r: Self)
        ensures
            r@.len() == 0,
            r.wf(),
            forall|k: Seq<char>| r.spec_get(k) is None,
    {
        UnreadCounts { entries: Vec::new() }
    }

    fn find(&self, id: &str) -> (r: Option<usize>)
        ensures
            match r {
                Option::Some(i) => i < self@.len() && self@[i as int].0 == id@ && forall|k: int|
                    0 <= k < i ==> self@[k].0 != id@,
                Option::None => forall|k: int| 0 <= k < self@.len() ==> self@[k].0 != id@,
            },
    {
        let owned = id.to_owned();
        let n = self.entries.len();
        let mut i: usize = 0;
        while i < n
            invariant
                0 <= i <= n,
                n == self@.len(),
                n == self.entries@.len(),
                owned@ == id@,
                forall|k: int| 0 <= k < i ==> self@[k].0 != id@,
            decreases n - i,
        {
            if self.entries[i].0 == owned {
                assert(self@[i as int].0 == id@);
                return Option::Some(i);
            }
            assert(self@[i as int].0 == self.entries@[i as int].0@);
            i = i + 1;
        }
        Option::None
    }

    /// The count recorded for `id`, or `None` when no entry exists.
    pub fn get(&self, id: &str) -> (r: Option<i32>)
        ensures
            r == self.spec_get(id@),
    {
        match self.find(id) {
            Option::Some(i) => {
                proof {
                    lemma_lookup_skip(self@, id@, i as int);
                    assert(self@.skip(i as int)[0] == self@[i as int]);
                }
                Option::Some(self.entries[i].1)
            },
            Option::None => {
                proof {
                    lemma_lookup_skip(self@, id@, self@.len() as int);
                    assert(self@.skip(self@.len() as int) =~= Seq::<(Seq<char>, i32)>::empty());
                }
                Option::None
            },
        }
    }

    /// Record count `v` for `id`, adding an entry when none exists.
    pub fn set(&mut self, id: &str, v: i32)
        requires
            old(self).wf(),
            v >= 0,
        ensures
            final(self).wf(),
            forall|k: Seq<char>|
                #[trigger] final(self).spec_get(k) == if k == id@ {
                    Option::Some(v)
                } else {
                    old(self).spec_get(k)
                },
    {
        let ghost s0 = self@;
        match self.find(id) {
            Option::Some(i) => {
                let key = self.entries[i].0.clone();
                self.entries.set(i, (key, v));
                proof {
                    assert(self@ =~= s0.update(i as int, (s0[i as int].0, v)));
                    assert forall|k: Seq<char>|
                        #[trigger] final(self).spec_get(k) == if k == id@ {
                            Option::<i32>::Some(v)
                        } else {
                            old(self).spec_get(k)
                        } by {
                        lemma_lookup_update(s0, i as int, v, k);
                        if k == id@ && k != s0[i as int].0 {
                            assert(s0[i as int].0 == id@);
                        }
                    }
                }
            },
            Option::None => {
                self.entries.push((id.to_owned(), v));
                proof {
                    assert(self@ =~= s0.push((id@, v)));
                    assert forall|k: Seq<char>|
                        #[trigger] final(self).spec_get(k) == if k == id@ {
                            Option::<i32>::Some(v)
                        } else {
                            old(self).spec_get(k)
                        } by {
                        lemma_lookup_push(s0, id@, v, k);
                        if k == id@ {
                            lemma_lookup_skip(s0, id@, s0.len() as int);
                            assert(s0.skip(s0.len() as int) =~= Seq::<(Seq<char>, i32)>::empty());
                        }
                    }
                }
            },
        }
    }

    /// Clear the count of `id` to zero, when an entry for it exists.
    pub fn reset(&mut self, id: &str)
        requires
            old(self).wf(),
        ensures
            final(self).wf(),
            forall|k: Seq<char>|
                #[trigger] final(self).spec_get(k) == if k == id@ && old(self).spec_get(k) is Some {
                    Option::Some(0i32)
                } else {
                    old(self).spec_get(k)
                },
            final(self).spec_count(id@) == 0,
    {
        let present = match self.get(id) {
            Option::Some(_) => true,
            Option::None => false,
        };
        if present {
            self.set(id, 0);
        }
    }

    /// Add one to the count of `id`, when an entry for it exists.
    pub fn increment(&mut self, id: &str)
        requires
            old(self).wf(),
            old(self).spec_get(id@) is Some ==> old(self).spec_get(id@)->0 < i32::MAX,
        ensures
            final(self).wf(),
            forall|k: Seq<char>|
                #[trigger] final(self).spec_get(k) == if k == id@ && old(self).spec_get(k) is Some {
                    Option::Some((old(self).spec_get(k)->0 + 1) as i32)
                } else {
                    old(self).spec_get(k)
                },
    {
        match self.get(id) {
            Option::Some(v) => {
                proof {
                    lemma_lookup_nonneg(self@, id@);
                }
                self.set(id, v + 1);
            },
            Option::None => {
            },
        }
    }

    /// The number of ids with a recorded entry.
    pub fn len(&self) -> (n: usize)
        ensures
            n == self@.len(),
    {
        self.entries.len()
    }
}

} // verus!
