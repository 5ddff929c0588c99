use vstd::prelude::*;
use vstd::string::*;

verus! {

/// The map that an ordered list of `(name, value)` insertions denotes:
/// a later insertion of a name replaces an earlier one.
pub open spec fn assoc_map(names: Seq<String>, values: Seq<String>, n: nat) -> Map<Seq<char>, Seq<char>>
    decreases n,
{
    if n == 0 {
        Map::empty()
    } else {
        assoc_map(names, values, (n - 1) as nat).insert(names[n - 1]@, values[n - 1]@)
    }
}

proof fn lemma_assoc_map_prefix(n1: Seq<String>, v1: Seq<String>, n2: Seq<String>, v2: Seq<String>, n: nat)
    requires
        n <= n1.len(),
        n <= n2.len(),
        n <= v1.len(),
        n <= v2.len(),
        n1.subrange(0, n as int) == n2.subrange(0, n as int),
        v1.subrange(0, n as int) == v2.subrange(0, n as int),
    ensures
        assoc_map(n1, v1, n) == assoc_map(n2, v2, n),
    decreases n,
{
    if n > 0 {
        assert(n1[n - 1] == n1.subrange(0, n as int)[n - 1]);
        assert(n2[n - 1] == n2.subrange(0, n as int)[n - 1]);
        assert(v1[n - 1] == v1.subrange(0, n as int)[n - 1]);
        assert(v2[n - 1] == v2.subrange(0, n as int)[n - 1]);
        assert(n1.subrange(0, n - 1) == n1.subrange(0, n as int).subrange(0, n - 1));
        assert(n2.subrange(0, n - 1) == n2.subrange(0, n as int).subrange(0, n - 1));
        assert(v1.subrange(0, n - 1) == v1.subrange(0, n as int).subrange(0, n - 1));
        assert(v2.subrange(0, n - 1) == v2.subrange(0, n as int).subrange(0, n - 1));
        lemma_assoc_map_prefix(n1, v1, n2, v2, (n - 1) as nat);
    }
}

/// Whether two strings hold the same characters.
pub fn same_text(a: &str, b: &str) -> (r: bool)
    ensures
        r == (a@ == b@),
{
    let n = a.unicode_len();
    if n != b.unicode_len() {
        return false;
    }
    let mut i: usize = 0;
    while i < n
        invariant
            n == a@.len(),
            n == b@.len(),
            i <= n,
            forall|k: int| 0 <= k < i ==> a@[k] == b@[k],
        decreases n - i,
    {
        if a.get_char(i) != b.get_char(i) {
            return false;
        }
        i = i + 1;
    }
    assert(a@ == b@);
    true
}

/// A request-scoped string-to-string map (path parameters, request headers).
pub struct StrMap {
    names: Vec<String>,
    values: Vec<String>,
}

impl StrMap {
    pub closed spec fn wf(&self) -> bool {
        self.names.len() == self.values.len()
    }

    pub closed spec fn view(&self) -> Map<Seq<char>, Seq<char>> {
        assoc_map(self.names@, self.values@, self.names.len() as nat)
    }

    pub fn new() -> (r: StrMap)
        ensures
            r.wf(),
            r.view() == Map::<Seq<char>, Seq<char>>::empty(),
    {
        StrMap { names: Vec::new(), values: Vec::new() }
    }

    /// Sets `name` to `value`, replacing any earlier value of `name`.
    pub fn insert(&mut self, name: String, value: String)
        requires
            old(self).wf(),
        ensures
            final(self).wf(),
            final(self).view() == old(self).view().insert(name@, value@),
    {
        self.names.push(name);
        self.values.push(value);
        let ghost n = old(self).names.len() as nat;
        proof {
            assert(self.names@.subrange(0, n as int) == old(self).names@.subrange(0, n as int));
            assert(self.values@.subrange(0, n as int) == old(self).values@.subrange(0, n as int));
            lemma_assoc_map_prefix(self.names@, self.values@, old(self).names@, old(self).values@, n);
        }
    }

    /// The value of `name`, if it is set.
    pub fn get(&self, name: &str) -> (r: Option<&String>)
        requires
            self.wf(),
        ensures
            r.is_some() == self.view().contains_key(name@),
            r.is_some() ==> r.unwrap()@ == self.view()[name@],
    {
        let mut i: usize = self.names.len();
        while i > 0
            invariant
                i <= self.names.len(),
                self.wf(),
                assoc_map(self.names@, self.values@, i as nat).contains_key(name@)
                    == self.view().contains_key(name@),
                assoc_map(self.names@, self.values@, i as nat).contains_key(name@) ==>
                    assoc_map(self.names@, self.values@, i as nat)[name@] == self.view()[name@],
            decreases i,
        {
            if same_text(self.names[i - 1].as_str(), name) {
                return Some(&self.values[i - 1]);
            }
            i = i - 1;
        }
        None
    }
}

} // verus!
