//! An ordered list of name-value bindings, where a later binding of a name
//! hides an earlier one.

use vstd::prelude::*;

verus! {

/// The mapping that the bindings `ps` make, read in order: the last binding
/// of a name wins.
pub open spec fn pairs_map(ps: Seq<(Seq<char>, Seq<char>)>) -> Map<Seq<char>, Seq<char>>
    decreases ps.len(),
{
    if ps.len() == 0 {
        Map::empty()
    } else {
        pairs_map(ps.drop_last()).insert(ps.last().0, ps.last().1)
    }
}

/// Name-value bindings in the order in which they were made.
pub struct VarMap {
    pub entries: Vec<(String, String)>,
}

impl VarMap {
    pub open spec fn pairs(&self) -> Seq<(Seq<char>, Seq<char>)> {
        self.entries.deep_view()
    }

    /// The mapping from names to values.
    pub open spec fn view(&self) -> Map<Seq<char>, Seq<char>> {
        pairs_map(self.pairs())
    }

    pub fn new() -> (r: VarMap)
        ensures
            r.pairs() == Seq::<(Seq<char>, Seq<char>)>::empty(),
    {
        let r = VarMap { entries: Vec::new() };
        assert(r.pairs() =~= Seq::<(Seq<char>, Seq<char>)>::empty());
        r
    }

    /// Binds `name` to `value`, hiding any earlier binding of `name`.
    pub fn bind(&mut self, name: String, value: String)
        ensures
            final(self).pairs() == old(self).pairs().push((name@, value@)),
            final(self).view() == old(self).view().insert(name@, value@),
    {
        self.entries.push((name, value));
        assert(self.pairs().drop_last() =~= old(self).pairs());
        assert(self.pairs() =~= old(self).pairs().push((name@, value@)));
    }

    /// The value bound last to `name`, if any.
    pub fn get(&self, name: &str) -> (r: Option<&String>)
        ensures
            r matches Some(v) ==> self.view().contains_key(name@) && self.view()[name@] == v@,
            r is None ==> !self.view().contains_key(name@),
    {
        let key = String::from_str(name);
        let mut i = self.entries.len();
        assert(self.pairs().subrange(0, i as int) =~= self.pairs());
        while i > 0
            invariant
                i <= self.entries@.len(),
                key@ == name@,
                pairs_map(self.pairs().subrange(0, i as int)).contains_key(name@)
                    == self.view().contains_key(name@),
                pairs_map(self.pairs().subrange(0, i as int)).contains_key(name@)
                    ==> pairs_map(self.pairs().subrange(0, i as int))[name@] == self.view()[name@],
            decreases i,
        {
            let ghost pre = self.pairs().subrange(0, i as int);
            assert(pre.drop_last() =~= self.pairs().subrange(0, i - 1));
            assert(pre.last() == self.pairs()[i - 1]);
            if self.entries[i - 1].0 == key {
                return Some(&self.entries[i - 1].1);
            }
            i = i - 1;
        }
        assert(self.pairs().subrange(0, 0) =~= Seq::<(Seq<char>, Seq<char>)>::empty());
        None
    }
}

} // verus!
