use vstd::prelude::*;

verus! {

/// The value bound to `name` by a sequence of bindings, where a later
/// binding of a name replaces an earlier one.
pub open spec fn lookup_in<V>(entries: Seq<(Seq<char>, V)>, name: Seq<char>) -> Option<V>
    decreases entries.len(),
{
    if entries.len() == 0 {
        None
    } else if entries.last().0 == name {
        Some(entries.last().1)
    } else {
        lookup_in(entries.drop_last(), name)
    }
}

/// A table from names to values, "last write wins". Its view is the list of
/// bindings in the order they were made.
pub struct SymbolTable<V> {
    entries: Vec<(Vec<char>, V)>,
}

impl<V: View> View for SymbolTable<V> {
    type V = Seq<(Seq<char>, V::V)>;

    closed spec fn view(&self) -> Seq<(Seq<char>, V::V)> {
        self.entries@.map_values(|e: (Vec<char>, V)| (e.0@, e.1@))
    }
}

impl<V: View> SymbolTable<V> {
    /// An empty table.
    pub fn new() -> (r: Self)
        ensures
            r@ == Seq::<(Seq<char>, V::V)>::empty(),
    {
        let r = SymbolTable { entries: Vec::new() };
        assert(r@ =~= Seq::empty());
        r
    }

    /// Binds `name` to `value`, replacing any earlier binding of `name`.
    pub fn insert(&mut self, name: Vec<char>, value: V)
        ensures
            final(self)@ == old(self)@.push((name@, value@)),
    {
        self.entries.push((name, value));
        assert(self@ =~= old(self)@.push((name@, value@)));
    }

    /// Binds the name `name` to `value`.
    pub fn insert_str(&mut self, name: &str, value: V)
        ensures
            final(self)@ == old(self)@.push((name@, value@)),
    {
        let n = crate::literal::chars_of(name);
        self.insert(n, value);
    }

    /// The value that `name` stands for, if any.
    pub fn lookup(&self, name: &Vec<char>) -> (r: Option<&V>)
        ensures
            match lookup_in(self@, name@) {
                Some(v) => r matches Some(x) && x@ == v,
                None => r is None,
            },
    {
        let mut i: usize = self.entries.len();
        assert(self@.take(i as int) =~= self@);
        while i > 0
            invariant
                i <= self.entries.len(),
                lookup_in(self@, name@) == lookup_in(self@.take(i as int), name@),
            decreases i,
        {
            let ghost pre = self@.take(i as int);
            assert(pre.drop_last() =~= self@.take(i - 1));
            let entry = &self.entries[i - 1];
            if chars_eq(&entry.0, name) {
                return Some(&entry.1);
            }
            i = i - 1;
        }
        None
    }
}

/// Whether two character vectors hold the same characters.
pub fn chars_eq(a: &Vec<char>, b: &Vec<char>) -> (r: bool)
    ensures
        r == (a@ == b@),
{
    if a.len() != b.len() {
        return false;
    }
    let mut i: usize = 0;
    while i < a.len()
        invariant
            a.len() == b.len(),
            0 <= i <= a.len(),
            forall|k: int| 0 <= k < i ==> a@[k] == b@[k],
        decreases a.len() - i,
    {
        if a[i] != b[i] {
            return false;
        }
        i = i + 1;
    }
    assert(a@ =~= b@);
    true
}

} // verus!
