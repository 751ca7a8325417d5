//! The response cache: previously produced responses, keyed by raw path.
use vstd::prelude::*;
use crate::response::Response;

verus! {

/// The map that a list of entries stands for: a later entry for a path
/// replaces an earlier one.
pub open spec fn entries_map(s: Seq<(String, Response)>) -> Map<Seq<char>, Response>
    decreases s.len(),
{
    if s.len() == 0 {
        Map::empty()
    } else {
        entries_map(s.drop_last()).insert(s.last().0@, s.last().1)
    }
}

/// Entries after index `i` that do not hold `key` leave its mapping as the
/// prefix up to `i` has it.
proof fn lemma_prefix_decides(s: Seq<(String, Response)>, i: int, key: Seq<char>)
    requires
        0 <= i <= s.len(),
        forall|j: int| i <= j < s.len() ==> (#[trigger] s[j]).0@ != key,
    ensures
        entries_map(s).contains_key(key) == entries_map(s.subrange(0, i)).contains_key(key),
        entries_map(s).contains_key(key) ==> entries_map(s)[key] == entries_map(
            s.subrange(0, i),
        )[key],
    decreases s.len() - i,
{
    if i < s.len() {
        let t = s.drop_last();
        assert(t.subrange(0, i) =~= s.subrange(0, i));
        lemma_prefix_decides(t, i, key);
    } else {
        assert(s.subrange(0, i) =~= s);
    }
}

/// Responses by raw path. Entries are never evicted.
pub struct ResponseCache {
    entries: Vec<(String, Response)>,
}

impl View for ResponseCache {
    type V = Map<Seq<char>, Response>;

    closed spec fn view(&self) -> Map<Seq<char>, Response> {
        entries_map(self.entries@)
    }
}

impl ResponseCache {
    /// An empty cache.
    pub fn new() -> (r: ResponseCache)
        ensures
            r@ == Map::<Seq<char>, Response>::empty(),
    {
        ResponseCache { entries: Vec::new() }
    }

    /// A copy of the response cached for `path`, if there is one.
    pub fn lookup(&self, path: &String) -> (r: Option<Response>)
        ensures
            r == (if self@.contains_key(path@) {
                Some(self@[path@])
            } else {
                None
            }),
    {
        let mut i = self.entries.len();
        while i > 0
            invariant
                i <= self.entries@.len(),
                forall|j: int|
                    i <= j < self.entries@.len() ==> (#[trigger] self.entries@[j]).0@ != path@,
            decreases i,
        {
            let e = &self.entries[i - 1];
            if e.0.eq(path) {
                proof {
                    lemma_prefix_decides(self.entries@, i as int, path@);
                    let pre = self.entries@.subrange(0, i as int);
                    assert(pre.drop_last() =~= self.entries@.subrange(0, i - 1));
                }
                return Some(e.1.clone());
            }
            i = i - 1;
        }
        proof {
            lemma_prefix_decides(self.entries@, 0, path@);
            assert(self.entries@.subrange(0, 0) =~= Seq::<(String, Response)>::empty());
        }
        None
    }

    /// Records `response` as the cached response for `path`.
    pub fn insert(&mut self, path: &String, response: Response)
        ensures
            final(self)@ == old(self)@.insert(path@, response),
    {
        let ghost before = self.entries@;
        self.entries.push((path.clone(), response));
        assert(self.entries@.drop_last() =~= before);
    }
}

} // verus!
