//! The named credentials of an install, in the order of their names.
use vstd::prelude::*;

use crate::text::chars_of;

verus! {

/// Whether `a` comes before `b` when texts are ordered by their characters.
pub open spec fn text_lt(a: Seq<char>, b: Seq<char>) -> bool
    decreases a.len(),
{
    if b.len() == 0 {
        false
    } else if a.len() == 0 {
        true
    } else if a[0] == b[0] {
        text_lt(a.drop_first(), b.drop_first())
    } else {
        (a[0] as int) < (b[0] as int)
    }
}

/// Whether a list of texts is strictly ascending, so none occurs twice.
pub open spec fn ascending(s: Seq<Seq<char>>) -> bool {
    forall|i: int, j: int| 0 <= i < j < s.len() ==> text_lt(#[trigger] s[i], #[trigger] s[j])
}

/// The names of a set of credentials, in ascending order.
pub open spec fn names_of(m: Map<Seq<char>, Seq<char>>) -> Seq<Seq<char>> {
    choose|s: Seq<Seq<char>>| ascending(s) && s.to_set() == m.dom()
}

/// No text comes before itself.
pub proof fn lemma_lt_irreflexive(a: Seq<char>)
    ensures
        !text_lt(a, a),
    decreases a.len(),
{
    if a.len() > 0 {
        lemma_lt_irreflexive(a.drop_first());
    }
}

/// The order of texts is transitive.
pub proof fn lemma_lt_transitive(a: Seq<char>, b: Seq<char>, c: Seq<char>)
    requires
        text_lt(a, b),
        text_lt(b, c),
    ensures
        text_lt(a, c),
    decreases a.len(),
{
    if a.len() > 0 && b.len() > 0 && c.len() > 0 && a[0] == b[0] && b[0] == c[0] {
        lemma_lt_transitive(a.drop_first(), b.drop_first(), c.drop_first());
    }
}

/// Of two different texts, one comes before the other.
pub proof fn lemma_lt_total(a: Seq<char>, b: Seq<char>)
    ensures
        a == b || text_lt(a, b) || text_lt(b, a),
    decreases a.len(),
{
    if a.len() > 0 && b.len() > 0 && a[0] == b[0] {
        lemma_lt_total(a.drop_first(), b.drop_first());
        if a.drop_first() == b.drop_first() {
            assert(a =~= seq![a[0]] + a.drop_first());
            assert(b =~= seq![b[0]] + b.drop_first());
        }
    } else if a.len() == 0 && b.len() == 0 {
        assert(a =~= b);
    }
}

/// Two ascending lists of the same texts are the same list.
pub proof fn lemma_ascending_unique(a: Seq<Seq<char>>, b: Seq<Seq<char>>)
    requires
        ascending(a),
        ascending(b),
        a.to_set() == b.to_set(),
    ensures
        a == b,
    decreases a.len(),
{
    if a.len() == 0 {
        if b.len() > 0 {
            assert(b.to_set().contains(b[0]));
            assert(a.to_set().contains(b[0]));
        }
        assert(a =~= b);
    } else {
        assert(a.to_set().contains(a.last()));
        assert(b.contains(a.last()));
        let i = choose|i: int| 0 <= i < b.len() && b[i] == a.last();
        assert(b.to_set().contains(b.last()));
        assert(a.contains(b.last()));
        let j = choose|j: int| 0 <= j < a.len() && a[j] == b.last();
        if a.last() != b.last() {
            assert(text_lt(b[i], b[b.len() - 1]));
            assert(text_lt(a[j], a[a.len() - 1]));
            lemma_lt_transitive(a.last(), b.last(), a.last());
            lemma_lt_irreflexive(a.last());
        }
        let x = a.drop_last();
        let y = b.drop_last();
        assert forall|t: Seq<char>| x.to_set().contains(t) <==> y.to_set().contains(t) by {
            lemma_drop_last_members(a, t);
            lemma_drop_last_members(b, t);
        }
        assert(x.to_set() =~= y.to_set());
        lemma_ascending_unique(x, y);
        assert(a =~= x.push(a.last()));
        assert(b =~= y.push(b.last()));
    }
}

/// Dropping the last text of an ascending list removes that text alone.
proof fn lemma_drop_last_members(s: Seq<Seq<char>>, t: Seq<char>)
    requires
        ascending(s),
        s.len() > 0,
    ensures
        s.drop_last().to_set().contains(t) <==> s.to_set().contains(t) && t != s.last(),
{
    if s.drop_last().contains(t) {
        let i = choose|i: int| 0 <= i < s.drop_last().len() && s.drop_last()[i] == t;
        assert(s[i] == t);
        assert(text_lt(s[i], s[s.len() - 1]));
        lemma_lt_irreflexive(t);
    }
    if s.contains(t) && t != s.last() {
        let i = choose|i: int| 0 <= i < s.len() && s[i] == t;
        assert(s.drop_last()[i] == t);
    }
}

/// Whether `a` comes before `b`.
pub fn text_less(a: &str, b: &str) -> (r: bool)
    ensures
        r == text_lt(a@, b@),
{
    let left = chars_of(a);
    let right = chars_of(b);
    let mut i: usize = 0;
    proof {
        assert(a@.skip(0) =~= a@);
        assert(b@.skip(0) =~= b@);
    }
    while i < left.len() && i < right.len()
        invariant
            left@ == a@,
            right@ == b@,
            i <= left@.len(),
            i <= right@.len(),
            text_lt(a@, b@) == text_lt(a@.skip(i as int), b@.skip(i as int)),
        decreases left@.len() - i,
    {
        let c: char = left[i];
        let d: char = right[i];
        if c != d {
            return c < d;
        }
        proof {
            assert(a@.skip(i as int).drop_first() =~= a@.skip(i + 1));
            assert(b@.skip(i as int).drop_first() =~= b@.skip(i + 1));
        }
        i = i + 1;
    }
    i < right.len()
}

/// The credentials named by a list of pairs, the names being distinct.
pub open spec fn pairs_map(pairs: Seq<(String, String)>) -> Map<Seq<char>, Seq<char>>
    decreases pairs.len(),
{
    if pairs.len() == 0 {
        Map::empty()
    } else {
        pairs_map(pairs.drop_last()).insert(pairs.last().0@, pairs.last().1@)
    }
}

/// The names of a list of pairs, in order.
pub open spec fn pair_names(pairs: Seq<(String, String)>) -> Seq<Seq<char>> {
    pairs.map_values(|p: (String, String)| p.0@)
}

/// What a list of pairs with ascending names maps each name to.
proof fn lemma_pairs_map(pairs: Seq<(String, String)>)
    requires
        ascending(pair_names(pairs)),
    ensures
        pair_names(pairs).to_set() == pairs_map(pairs).dom(),
        forall|i: int|
            0 <= i < pairs.len() ==> pairs_map(pairs).contains_pair(
                (#[trigger] pairs[i]).0@,
                pairs[i].1@,
            ),
    decreases pairs.len(),
{
    let names = pair_names(pairs);
    if pairs.len() == 0 {
        assert(names.to_set() =~= Set::empty());
        assert(pairs_map(pairs).dom() =~= Set::empty());
    } else {
        let rest = pairs.drop_last();
        assert(pair_names(rest) =~= names.drop_last());
        lemma_pairs_map(rest);
        assert forall|t: Seq<char>|
            names.to_set().contains(t) <==> pairs_map(pairs).dom().contains(t) by {
            lemma_drop_last_members(names, t);
            if t == names.last() {
                assert(names.contains(names[names.len() - 1]));
            }
        }
        assert(names.to_set() =~= pairs_map(pairs).dom());
        assert forall|i: int| 0 <= i < pairs.len() implies pairs_map(pairs).contains_pair(
            (#[trigger] pairs[i]).0@,
            pairs[i].1@,
        ) by {
            if i < pairs.len() - 1 {
                assert(rest[i] == pairs[i]);
                assert(text_lt(names[i], names[names.len() - 1]));
                lemma_lt_irreflexive(names[i]);
            }
        }
    }
}

/// Two lists of pairs with ascending names map alike when each pair of either
/// is in the map of the other.
proof fn lemma_same_map(pairs: Seq<(String, String)>, m: Map<Seq<char>, Seq<char>>)
    requires
        ascending(pair_names(pairs)),
        pair_names(pairs).to_set() == m.dom(),
        forall|i: int| 0 <= i < pairs.len() ==> m[(#[trigger] pairs[i]).0@] == pairs[i].1@,
    ensures
        pairs_map(pairs) == m,
{
    lemma_pairs_map(pairs);
    assert forall|k: Seq<char>| m.dom().contains(k) implies pairs_map(pairs)[k] == m[k] by {
        assert(pair_names(pairs).contains(k));
        let i = choose|i: int| 0 <= i < pairs.len() && pair_names(pairs)[i] == k;
        assert(pairs[i].0@ == k);
    }
    assert(pairs_map(pairs) =~= m);
}

/// Named credentials: each name once, in ascending order.
#[derive(Debug, PartialEq, Eq)]
pub struct EnvMap {
    pairs: Vec<(String, String)>,
}

impl View for EnvMap {
    type V = Map<Seq<char>, Seq<char>>;

    closed spec fn view(&self) -> Map<Seq<char>, Seq<char>> {
        pairs_map(self.pairs@)
    }
}

impl Clone for EnvMap {
    fn clone(&self) -> (r: EnvMap)
        ensures
            r@ == self@,
    {
        proof {
            use_type_invariant(self);
        }
        let mut pairs: Vec<(String, String)> = Vec::new();
        let mut i: usize = 0;
        while i < self.pairs.len()
            invariant
                i <= self.pairs@.len(),
                pairs@ == self.pairs@.take(i as int),
            decreases self.pairs@.len() - i,
        {
            pairs.push((self.pairs[i].0.clone(), self.pairs[i].1.clone()));
            proof {
                assert(self.pairs@.take(i + 1) =~= self.pairs@.take(i as int).push(
                    self.pairs@[i as int],
                ));
            }
            i = i + 1;
        }
        assert(self.pairs@.take(self.pairs@.len() as int) =~= self.pairs@);
        EnvMap { pairs }
    }
}

impl EnvMap {
    #[verifier::type_invariant]
    spec fn sorted(self) -> bool {
        ascending(pair_names(self.pairs@))
    }

    /// No credentials.
    pub fn new() -> (r: EnvMap)
        ensures
            r@ == Map::<Seq<char>, Seq<char>>::empty(),
    {
        let pairs: Vec<(String, String)> = Vec::new();
        EnvMap { pairs }
    }

    /// Whether there are no credentials.
    pub fn is_empty(&self) -> (r: bool)
        ensures
            r == (self@ == Map::<Seq<char>, Seq<char>>::empty()),
    {
        proof {
            use_type_invariant(self);
            lemma_pairs_map(self.pairs@);
            if self.pairs@.len() > 0 {
                assert(self@.dom().contains(self.pairs@[0].0@));
            }
        }
        self.pairs.len() == 0
    }

    /// The value stored under `name`.
    pub fn get(&self, name: &str) -> (r: Option<&String>)
        ensures
            match r {
                Some(value) => self@.contains_key(name@) && self@[name@] == value@,
                None => !self@.contains_key(name@),
            },
    {
        proof {
            use_type_invariant(self);
            lemma_pairs_map(self.pairs@);
        }
        let mut i: usize = 0;
        while i < self.pairs.len()
            invariant
                i <= self.pairs@.len(),
                pair_names(self.pairs@).to_set() == self@.dom(),
                forall|j: int|
                    0 <= j < self.pairs@.len() ==> self@.contains_pair(
                        (#[trigger] self.pairs@[j]).0@,
                        self.pairs@[j].1@,
                    ),
                forall|j: int| 0 <= j < i ==> (#[trigger] self.pairs@[j]).0@ != name@,
            decreases self.pairs@.len() - i,
        {
            if crate::text::same_text(self.pairs[i].0.as_str(), name) {
                return Some(&self.pairs[i].1);
            }
            i = i + 1;
        }
        proof {
            if self@.contains_key(name@) {
                assert(pair_names(self.pairs@).contains(name@));
                let j = choose|j: int|
                    0 <= j < self.pairs@.len() && pair_names(self.pairs@)[j] == name@;
                assert(self.pairs@[j].0@ == name@);
            }
        }
        None
    }

    /// Stores `value` under `name`, in place of what was there.
    pub fn insert(&mut self, name: String, value: String)
        ensures
            final(self)@ == old(self)@.insert(name@, value@),
    {
        proof {
            use_type_invariant(&*self);
        }
        let mut pairs: Vec<(String, String)> = Vec::new();
        std::mem::swap(&mut pairs, &mut self.pairs);
        insert_pair(&mut pairs, name, value);
        self.pairs = pairs;
    }

    /// Stores every credential of `newer`, in place of what had its name.
    pub fn extend(&mut self, newer: EnvMap)
        ensures
            final(self)@ == old(self)@.union_prefer_right(newer@),
    {
        proof {
            use_type_invariant(&newer);
            use_type_invariant(&*self);
        }
        let source: Vec<(String, String)> = newer.pairs;
        let ghost given = source@;
        let mut pairs: Vec<(String, String)> = Vec::new();
        std::mem::swap(&mut pairs, &mut self.pairs);
        let ghost before = pairs_map(pairs@);
        let mut done: usize = 0;
        proof {
            assert(given.take(0) =~= Seq::empty());
            assert(before.union_prefer_right(Map::empty()) =~= before);
        }
        while done < source.len()
            invariant
                source@ == given,
                done <= given.len(),
                ascending(pair_names(pairs@)),
                pairs_map(pairs@) == before.union_prefer_right(
                    pairs_map(given.take(done as int)),
                ),
            decreases given.len() - done,
        {
            let name = source[done].0.clone();
            let value = source[done].1.clone();
            proof {
                assert(given.take(done + 1).drop_last() =~= given.take(done as int));
                assert(before.union_prefer_right(pairs_map(given.take(done + 1)))
                    =~= before.union_prefer_right(pairs_map(given.take(done as int))).insert(
                    name@,
                    value@,
                ));
            }
            insert_pair(&mut pairs, name, value);
            done = done + 1;
        }
        assert(given.take(given.len() as int) =~= given);
        self.pairs = pairs;
    }

    /// The names, in ascending order.
    pub fn names(&self) -> (r: Vec<String>)
        ensures
            crate::text::texts(r@) == names_of(self@),
            ascending(crate::text::texts(r@)),
            crate::text::texts(r@).to_set() == self@.dom(),
    {
        proof {
            use_type_invariant(self);
            lemma_pairs_map(self.pairs@);
        }
        let mut names: Vec<String> = Vec::new();
        let mut i: usize = 0;
        while i < self.pairs.len()
            invariant
                i <= self.pairs@.len(),
                names@.len() == i,
                forall|j: int| 0 <= j < i ==> names@[j] == (#[trigger] self.pairs@[j]).0,
            decreases self.pairs@.len() - i,
        {
            names.push(self.pairs[i].0.clone());
            i = i + 1;
        }
        proof {
            assert(crate::text::texts(names@) =~= pair_names(self.pairs@));
            lemma_names_of(self@, crate::text::texts(names@));
        }
        names
    }

    /// The credentials as pairs, in ascending order of their names.
    pub fn pairs(&self) -> (r: &Vec<(String, String)>)
        ensures
            pairs_map(r@) == self@,
            ascending(pair_names(r@)),
    {
        proof {
            use_type_invariant(self);
        }
        &self.pairs
    }
}

/// The ascending list of the names of `m` is the one that `names_of` picks.
pub proof fn lemma_names_of(m: Map<Seq<char>, Seq<char>>, s: Seq<Seq<char>>)
    requires
        ascending(s),
        s.to_set() == m.dom(),
    ensures
        names_of(m) == s,
{
    lemma_ascending_unique(names_of(m), s);
}

/// Puts one pair in its place in a list of pairs with ascending names.
fn insert_pair(pairs: &mut Vec<(String, String)>, name: String, value: String)
    requires
        ascending(pair_names(old(pairs)@)),
    ensures
        ascending(pair_names(final(pairs)@)),
        pairs_map(final(pairs)@) == pairs_map(old(pairs)@).insert(name@, value@),
{
    let ghost before = pairs@;
    let mut at: usize = 0;
    proof {
        lemma_pairs_map(before);
    }
    while at < pairs.len() && text_less(pairs[at].0.as_str(), name.as_str())
        invariant
            pairs@ == before,
            at <= pairs@.len(),
            ascending(pair_names(before)),
            forall|i: int| 0 <= i < at ==> text_lt((#[trigger] before[i]).0@, name@),
        decreases pairs@.len() - at,
    {
        at = at + 1;
    }
    let ghost wanted = pairs_map(before).insert(name@, value@);
    if at < pairs.len() && pairs[at].0 == name {
        pairs.set(at, (name, value));
        proof {
            let after = pairs@;
            assert(pair_names(after) =~= pair_names(before));
            assert(wanted.dom() =~= pairs_map(before).dom()) by {
                assert(pair_names(before).contains(pair_names(before)[at as int]));
            }
            assert forall|i: int| 0 <= i < after.len() implies wanted[(#[trigger] after[i]).0@]
                == after[i].1@ by {
                if i != at {
                    assert(after[i] == before[i]);
                    lemma_distinct(pair_names(before), i, at as int);
                }
            }
            lemma_same_map(after, wanted);
        }
    } else {
        proof {
            if at < pairs.len() {
                lemma_lt_total(before[at as int].0@, name@);
            }
        }
        pairs.insert(at, (name, value));
        proof {
            let after = pairs@;
            let names = pair_names(after);
            assert forall|i: int, j: int| 0 <= i < j < names.len() implies text_lt(
                #[trigger] names[i],
                #[trigger] names[j],
            ) by {
                lemma_inserted_order(before, after, at as int, name@, i, j);
            }
            assert forall|t: Seq<char>| names.to_set().contains(t) <==> wanted.dom().contains(t) by {
                if names.contains(t) {
                    let i = choose|i: int| 0 <= i < names.len() && names[i] == t;
                    if i < at {
                        assert(pair_names(before)[i] == t);
                        assert(pair_names(before).contains(t));
                    } else if i > at {
                        assert(pair_names(before)[i - 1] == t);
                        assert(pair_names(before).contains(t));
                    }
                }
                if wanted.dom().contains(t) {
                    if t == name@ {
                        assert(names[at as int] == t);
                    } else {
                        assert(pair_names(before).contains(t));
                        let i = choose|i: int| 0 <= i < before.len() && pair_names(before)[i] == t;
                        if i < at {
                            assert(names[i] == t);
                        } else {
                            assert(names[i + 1] == t);
                        }
                    }
                }
            }
            assert(names.to_set() =~= wanted.dom());
            assert forall|i: int| 0 <= i < after.len() implies wanted[(#[trigger] after[i]).0@]
                == after[i].1@ by {
                if i != at {
                    lemma_distinct(names, i, at as int);
                    if i < at {
                        assert(after[i] == before[i]);
                    } else {
                        assert(after[i] == before[i - 1]);
                    }
                }
            }
            lemma_same_map(after, wanted);
        }
    }
}

/// Two places of an ascending list hold different texts.
proof fn lemma_distinct(s: Seq<Seq<char>>, i: int, j: int)
    requires
        ascending(s),
        0 <= i < s.len(),
        0 <= j < s.len(),
        i != j,
    ensures
        s[i] != s[j],
{
    if i < j {
        assert(text_lt(s[i], s[j]));
    } else {
        assert(text_lt(s[j], s[i]));
    }
    lemma_lt_irreflexive(s[i]);
}

/// A name put between the names below it and those above it keeps the order.
proof fn lemma_inserted_order(
    before: Seq<(String, String)>,
    after: Seq<(String, String)>,
    at: int,
    name: Seq<char>,
    i: int,
    j: int,
)
    requires
        ascending(pair_names(before)),
        0 <= at <= before.len(),
        after.len() == before.len() + 1,
        after[at].0@ == name,
        forall|k: int| 0 <= k < at ==> after[k] == before[k],
        forall|k: int| at < k < after.len() ==> after[k] == before[k - 1],
        forall|k: int| 0 <= k < at ==> text_lt((#[trigger] before[k]).0@, name),
        at < before.len() ==> text_lt(name, before[at].0@),
        0 <= i < j < after.len(),
    ensures
        text_lt(after[i].0@, after[j].0@),
{
    let names = pair_names(before);
    if i < at && j < at {
        assert(text_lt(names[i], names[j]));
    } else if i < at && j == at {
        assert(text_lt(before[i].0@, name));
    } else if i < at {
        assert(text_lt(names[i], names[j - 1]));
    } else if i == at {
        if j - 1 > at {
            assert(text_lt(names[at], names[j - 1]));
            lemma_lt_transitive(name, before[at].0@, before[j - 1].0@);
        }
    } else {
        assert(text_lt(names[i - 1], names[j - 1]));
    }
}

/// One text comes before another exactly where they are alike up to some place,
/// and there the first ends and the other goes on, or has the smaller character.
pub proof fn texts_are_ordered_by_their_first_difference(a: Seq<char>, b: Seq<char>)
    ensures
        text_lt(a, b) <==> exists|k: int|
            #![trigger a.take(k)]
            0 <= k <= a.len() && k < b.len() && a.take(k) == b.take(k) && (k == a.len() || (a[k]
                as int) < (b[k] as int)),
    decreases a.len(),
{
    let differs = |k: int|
        0 <= k <= a.len() && k < b.len() && a.take(k) == b.take(k) && (k == a.len() || (a[k] as int)
            < (b[k] as int));
    if b.len() > 0 && a.len() > 0 && a[0] == b[0] {
        let x = a.drop_first();
        let y = b.drop_first();
        texts_are_ordered_by_their_first_difference(x, y);
        if text_lt(a, b) {
            let k = choose|k: int|
                #![trigger x.take(k)]
                0 <= k <= x.len() && k < y.len() && x.take(k) == y.take(k) && (k == x.len() || (x[k]
                    as int) < (y[k] as int));
            assert(a.take(k + 1) =~= seq![a[0]] + x.take(k));
            assert(b.take(k + 1) =~= seq![b[0]] + y.take(k));
            assert(differs(k + 1));
        }
        if exists|k: int| #![trigger a.take(k)] differs(k) {
            let k = choose|k: int| #![trigger a.take(k)] differs(k);
            assert(k > 0);
            assert(x.take(k - 1) =~= a.take(k).drop_first());
            assert(y.take(k - 1) =~= b.take(k).drop_first());
            assert(x.take(k - 1) == y.take(k - 1));
        }
    } else {
        if text_lt(a, b) {
            assert(a.take(0) =~= b.take(0));
            assert(differs(0));
        }
        if exists|k: int| #![trigger a.take(k)] differs(k) {
            let k = choose|k: int| #![trigger a.take(k)] differs(k);
            if k > 0 {
                assert(a.take(k)[0] == b.take(k)[0]);
            }
        }
    }
}

} // verus!
