//! Label sets: maps from label names to label values.

use vstd::prelude::*;

verus! {

/// The map that a list of pairs writes down. Where a name stands twice, the
/// later pair counts.
pub open spec fn pairs_map(pairs: Seq<(String, String)>) -> Map<Seq<char>, Seq<char>>
    decreases pairs.len(),
{
    if pairs.len() == 0 {
        Map::empty()
    } else {
        pairs_map(pairs.drop_last()).insert(pairs.last().0@, pairs.last().1@)
    }
}

/// No name stands twice in `pairs`.
pub open spec fn distinct_names(pairs: Seq<(String, String)>) -> bool {
    forall|i: int, j: int| 0 <= i < j < pairs.len() ==> pairs[i].0@ != pairs[j].0@
}

/// The names of the map are the names of the pairs.
pub proof fn lemma_pairs_map_names(pairs: Seq<(String, String)>)
    ensures
        pairs_map(pairs).dom().finite(),
        forall|name: Seq<char>|
            pairs_map(pairs).contains_key(name) <==> exists|i: int|
                0 <= i < pairs.len() && #[trigger] pairs[i].0@ == name,
    decreases pairs.len(),
{
    if pairs.len() > 0 {
        let front = pairs.drop_last();
        lemma_pairs_map_names(front);
        assert forall|name: Seq<char>|
            pairs_map(pairs).contains_key(name) <==> exists|i: int|
                0 <= i < pairs.len() && #[trigger] pairs[i].0@ == name by {
            if pairs_map(pairs).contains_key(name) {
                if name == pairs.last().0@ {
                    assert(pairs[pairs.len() - 1].0@ == name);
                } else {
                    let i = choose|i: int| 0 <= i < front.len() && #[trigger] front[i].0@ == name;
                    assert(pairs[i].0@ == name);
                }
            }
            if exists|i: int| 0 <= i < pairs.len() && #[trigger] pairs[i].0@ == name {
                let i = choose|i: int| 0 <= i < pairs.len() && #[trigger] pairs[i].0@ == name;
                if i < pairs.len() - 1 {
                    assert(front[i].0@ == name);
                }
            }
        }
    }
}

/// Where no name stands twice, each pair gives its name's value.
pub proof fn lemma_pairs_map_value(pairs: Seq<(String, String)>, i: int)
    requires
        distinct_names(pairs),
        0 <= i < pairs.len(),
    ensures
        pairs_map(pairs).contains_key(pairs[i].0@),
        pairs_map(pairs)[pairs[i].0@] == pairs[i].1@,
    decreases pairs.len(),
{
    if i < pairs.len() - 1 {
        let front = pairs.drop_last();
        assert(front[i] == pairs[i]);
        lemma_pairs_map_value(front, i);
    }
}

/// Where no name stands twice, the map has as many names as there are pairs.
pub proof fn lemma_pairs_map_len(pairs: Seq<(String, String)>)
    requires
        distinct_names(pairs),
    ensures
        pairs_map(pairs).dom().finite(),
        pairs_map(pairs).len() == pairs.len(),
    decreases pairs.len(),
{
    lemma_pairs_map_names(pairs);
    if pairs.len() > 0 {
        let front = pairs.drop_last();
        lemma_pairs_map_len(front);
        lemma_pairs_map_names(front);
        if pairs_map(front).contains_key(pairs.last().0@) {
            let i = choose|i: int| 0 <= i < front.len() && #[trigger] front[i].0@ == pairs.last().0@;
            assert(pairs[i].0@ == pairs[pairs.len() - 1].0@);
        }
    }
}

/// A set of labels: each name has one value.
#[derive(Debug)]
pub struct Labels {
    pairs: Vec<(String, String)>,
}

impl View for Labels {
    type V = Map<Seq<char>, Seq<char>>;

    closed spec fn view(&self) -> Map<Seq<char>, Seq<char>> {
        pairs_map(self.pairs@)
    }
}

/// The place of `name` among `pairs`.
fn position(pairs: &Vec<(String, String)>, name: &str) -> (r: Option<usize>)
    ensures
        match r {
            Some(i) => i < pairs.len() && pairs[i as int].0@ == name@,
            None => forall|i: int| 0 <= i < pairs.len() ==> pairs[i].0@ != name@,
        },
{
    let wanted = name.to_owned();
    let mut i: usize = 0;
    while i < pairs.len()
        invariant
            i <= pairs.len(),
            wanted@ == name@,
            forall|j: int| 0 <= j < i ==> pairs[j].0@ != name@,
        decreases pairs.len() - i,
    {
        if pairs[i].0 == wanted {
            return Some(i);
        }
        i += 1;
    }
    None
}

impl Labels {
    #[verifier::type_invariant]
    spec fn wf(self) -> bool {
        distinct_names(self.pairs@)
    }

    /// The empty set of labels.
    pub fn new() -> (r: Labels)
        ensures
            r@ == Map::<Seq<char>, Seq<char>>::empty(),
    {
        Labels { pairs: Vec::new() }
    }

    /// The number of labels.
    pub fn len(&self) -> (n: usize)
        ensures
            self@.dom().finite(),
            n == self@.len(),
    {
        proof {
            use_type_invariant(self);
            lemma_pairs_map_len(self.pairs@);
        }
        self.pairs.len()
    }

    /// The value of the label `name`, if the set has it.
    pub fn get(&self, name: &str) -> (r: Option<&String>)
        ensures
            match r {
                Some(value) => self@.contains_key(name@) && value@ == self@[name@],
                None => !self@.contains_key(name@),
            },
    {
        proof {
            use_type_invariant(self);
            lemma_pairs_map_names(self.pairs@);
        }
        match position(&self.pairs, name) {
            Some(i) => {
                proof {
                    lemma_pairs_map_value(self.pairs@, i as int);
                }
                Some(&self.pairs[i].1)
            },
            None => None,
        }
    }

    /// Gives `name` the value `value`, and returns the value it had.
    pub fn insert(&mut self, name: String, value: String) -> (r: Option<String>)
        ensures
            final(self)@ == old(self)@.insert(name@, value@),
            match r {
                Some(before) => old(self)@.contains_key(name@) && before@ == old(self)@[name@],
                None => !old(self)@.contains_key(name@),
            },
    {
        proof {
            use_type_invariant(&*self);
            lemma_pairs_map_names(self.pairs@);
        }
        let mut pairs = Vec::new();
        std::mem::swap(&mut pairs, &mut self.pairs);
        let ghost before = pairs@;
        let r = match position(&pairs, name.as_str()) {
            Some(i) => {
                let ghost pair = (name, value);
                let (_, old_value) = pairs.remove(i);
                pairs.push((name, value));
                proof {
                    lemma_pairs_map_value(before, i as int);
                    lemma_removed(before, i as int);
                    assert(pairs@.drop_last() =~= before.remove(i as int));
                    assert(pairs_map(pairs@) =~= pairs_map(before).insert(pair.0@, pair.1@));
                    assert forall|a: int, b: int| 0 <= a < b < pairs@.len() implies pairs@[a].0@
                        != pairs@[b].0@ by {
                        let a0 = if a < i { a } else { a + 1 };
                        let b0 = if b == pairs@.len() - 1 { i as int } else if b < i { b } else { b + 1 };
                        assert(pairs@[a].0@ == before[a0].0@);
                        assert(pairs@[b].0@ == before[b0].0@);
                    }
                }
                Some(old_value)
            },
            None => {
                pairs.push((name, value));
                proof {
                    assert(pairs@.drop_last() =~= before);
                }
                None
            },
        };
        self.pairs = pairs;
        r
    }

    /// Takes the label `name` out, and returns the value it had.
    pub fn remove(&mut self, name: &str) -> (r: Option<String>)
        ensures
            final(self)@ == old(self)@.remove(name@),
            match r {
                Some(before) => old(self)@.contains_key(name@) && before@ == old(self)@[name@],
                None => !old(self)@.contains_key(name@),
            },
    {
        proof {
            use_type_invariant(&*self);
            lemma_pairs_map_names(self.pairs@);
        }
        let mut pairs = Vec::new();
        std::mem::swap(&mut pairs, &mut self.pairs);
        let ghost before = pairs@;
        let r = match position(&pairs, name) {
            Some(i) => {
                let (_, old_value) = pairs.remove(i);
                proof {
                    lemma_pairs_map_value(before, i as int);
                    lemma_removed(before, i as int);
                }
                Some(old_value)
            },
            None => {
                proof {
                    assert(pairs_map(before).remove(name@) =~= pairs_map(before));
                }
                None
            },
        };
        self.pairs = pairs;
        r
    }

    /// The labels as pairs of name and value, each name once, in no
    /// particular order.
    pub fn pairs(&self) -> (r: &Vec<(String, String)>)
        ensures
            distinct_names(r@),
            pairs_map(r@) == self@,
    {
        proof {
            use_type_invariant(self);
        }
        &self.pairs
    }
}

/// Taking a pair out of a list without repeated names takes its name out of
/// the map, and leaves a list without repeated names.
proof fn lemma_removed(pairs: Seq<(String, String)>, i: int)
    requires
        distinct_names(pairs),
        0 <= i < pairs.len(),
    ensures
        distinct_names(pairs.remove(i)),
        pairs_map(pairs.remove(i)) == pairs_map(pairs).remove(pairs[i].0@),
{
    let rest = pairs.remove(i);
    assert forall|a: int, b: int| 0 <= a < b < rest.len() implies rest[a].0@ != rest[b].0@ by {
        let a0 = if a < i { a } else { a + 1 };
        let b0 = if b < i { b } else { b + 1 };
        assert(rest[a] == pairs[a0]);
        assert(rest[b] == pairs[b0]);
    }
    lemma_pairs_map_names(pairs);
    lemma_pairs_map_names(rest);
    let left = pairs_map(rest);
    let right = pairs_map(pairs).remove(pairs[i].0@);
    assert forall|name: Seq<char>| left.contains_key(name) <==> right.contains_key(name) by {
        if left.contains_key(name) {
            let a = choose|a: int| 0 <= a < rest.len() && #[trigger] rest[a].0@ == name;
            let a0 = if a < i { a } else { a + 1 };
            assert(pairs[a0].0@ == name);
        }
        if right.contains_key(name) {
            let a0 = choose|a0: int| 0 <= a0 < pairs.len() && #[trigger] pairs[a0].0@ == name;
            let a = if a0 < i { a0 } else { a0 - 1 };
            assert(rest[a].0@ == name);
        }
    }
    assert forall|name: Seq<char>| left.contains_key(name) implies left[name] == right[name] by {
        let a = choose|a: int| 0 <= a < rest.len() && #[trigger] rest[a].0@ == name;
        let a0 = if a < i { a } else { a + 1 };
        assert(rest[a] == pairs[a0]);
        lemma_pairs_map_value(rest, a);
        lemma_pairs_map_value(pairs, a0);
    }
    assert(left =~= right);
}

} // verus!
