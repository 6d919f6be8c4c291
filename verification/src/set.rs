//! A set of addresses, kept in reporting order.

use vstd::prelude::*;
use crate::address::{texts, Url};
use crate::text::{
    key, lemma_precedes_irreflexive, lemma_precedes_transitive, rank, text_precedes, Rank,
};

verus! {

/// Every address comes strictly before all later ones, so none occurs twice.
pub open spec fn ascending(urls: Seq<Url>) -> bool {
    forall|i: int, j: int| 0 <= i < j < urls.len() ==> text_precedes(#[trigger] urls[i]@, #[trigger] urls[j]@)
}

/// The texts that occur in a list of addresses.
pub open spec fn text_set(urls: Seq<Url>) -> Set<Seq<char>> {
    texts(urls).to_set()
}

/// A text is in `text_set` exactly when some address of the list has it.
pub proof fn lemma_text_set_contains(urls: Seq<Url>, t: Seq<char>)
    ensures
        text_set(urls).contains(t) <==> exists|i: int| 0 <= i < urls.len() && #[trigger] urls[i]@ == t,
{
    let ts = texts(urls);
    if text_set(urls).contains(t) {
        let i = choose|i: int| 0 <= i < ts.len() && ts[i] == t;
        assert(urls[i]@ == t);
    }
    if exists|i: int| 0 <= i < urls.len() && #[trigger] urls[i]@ == t {
        let i = choose|i: int| 0 <= i < urls.len() && #[trigger] urls[i]@ == t;
        assert(ts[i] == t);
        assert(ts.contains(t));
    }
}

/// An ascending list holds no text twice.
pub proof fn lemma_ascending_distinct(urls: Seq<Url>)
    requires
        ascending(urls),
    ensures
        texts(urls).no_duplicates(),
        text_set(urls).finite(),
        text_set(urls).len() == urls.len(),
{
    let ts = texts(urls);
    assert forall|i: int, j: int| 0 <= i < ts.len() && 0 <= j < ts.len() && i != j implies ts[i]
        != ts[j] by {
        lemma_precedes_irreflexive(key(ts[i]));
        if i < j {
            assert(text_precedes(urls[i]@, urls[j]@));
        } else {
            assert(text_precedes(urls[j]@, urls[i]@));
        }
    }
    ts.unique_seq_to_set();
}

/// Putting a new address at its place keeps the order and adds its text.
proof fn lemma_insert_in_order(urls: Seq<Url>, at: int, url: Url)
    requires
        ascending(urls),
        0 <= at <= urls.len(),
        forall|k: int| 0 <= k < at ==> text_precedes(#[trigger] urls[k]@, url@),
        forall|k: int| at <= k < urls.len() ==> text_precedes(url@, #[trigger] urls[k]@),
    ensures
        ascending(urls.insert(at, url)),
        text_set(urls.insert(at, url)) == text_set(urls).insert(url@),
{
    let after = urls.insert(at, url);
    assert forall|i: int, j: int| 0 <= i < j < after.len() implies text_precedes(
        #[trigger] after[i]@,
        #[trigger] after[j]@,
    ) by {
        if j < at {
            assert(text_precedes(urls[i]@, urls[j]@));
        } else if j == at {
            assert(text_precedes(urls[i]@, url@));
        } else if i < at {
            assert(text_precedes(urls[i]@, urls[j - 1]@));
        } else if i == at {
            assert(text_precedes(url@, urls[j - 1]@));
        } else {
            assert(text_precedes(urls[i - 1]@, urls[j - 1]@));
        }
    }
    assert forall|t: Seq<char>| text_set(after).contains(t) <==> text_set(urls).insert(
        url@,
    ).contains(t) by {
        lemma_text_set_contains(after, t);
        lemma_text_set_contains(urls, t);
        if text_set(after).contains(t) {
            let i = choose|i: int| 0 <= i < after.len() && #[trigger] after[i]@ == t;
            if i < at {
                assert(urls[i]@ == t);
            } else if i > at {
                assert(urls[i - 1]@ == t);
            }
        }
        if t == url@ {
            assert(after[at]@ == t);
        }
        if text_set(urls).contains(t) {
            let i = choose|i: int| 0 <= i < urls.len() && #[trigger] urls[i]@ == t;
            if i < at {
                assert(after[i]@ == t);
            } else {
                assert(after[i + 1]@ == t);
            }
        }
    }
    assert(text_set(after) =~= text_set(urls).insert(url@));
}

/// A set of addresses. It holds each canonical text at most once.
pub struct UrlSet {
    items: Vec<Url>,
}

impl View for UrlSet {
    type V = Set<Seq<char>>;

    closed spec fn view(&self) -> Set<Seq<char>> {
        text_set(self.items@)
    }
}

impl UrlSet {
    #[verifier::type_invariant]
    spec fn in_order(self) -> bool {
        ascending(self.items@)
    }

    /// The empty set.
    pub fn new() -> (set: UrlSet)
        ensures
            set@ == Set::<Seq<char>>::empty(),
    {
        let set = UrlSet { items: Vec::new() };
        assert(text_set(set.items@) =~= Set::<Seq<char>>::empty()) by {
            assert forall|t: Seq<char>| !text_set(set.items@).contains(t) by {
                lemma_text_set_contains(set.items@, t);
            }
        }
        set
    }

    /// The number of addresses in the set.
    pub fn len(&self) -> (n: usize)
        ensures
            self@.finite(),
            n == self@.len(),
    {
        proof {
            use_type_invariant(self);
            lemma_ascending_distinct(self.items@);
        }
        self.items.len()
    }

    /// Where `text` stands among the addresses, and whether it is there.
    fn find(&self, text: &str) -> (place: (usize, bool))
        ensures
            place.0 <= self.items@.len(),
            forall|k: int| 0 <= k < place.0 ==> text_precedes(#[trigger] self.items@[k]@, text@),
            place.1 ==> place.0 < self.items@.len() && self.items@[place.0 as int]@ == text@,
            forall|k: int|
                place.0 + (if place.1 { 1int } else { 0int }) <= k < self.items@.len() ==> text_precedes(
                    text@,
                    #[trigger] self.items@[k]@,
                ),
            place.1 == self@.contains(text@),
    {
        proof {
            use_type_invariant(self);
        }
        let mut low: usize = 0;
        let mut high: usize = self.items.len();
        let mut found = false;
        while low < high && !found
            invariant
                ascending(self.items@),
                low <= high <= self.items@.len(),
                found ==> low < self.items@.len() && self.items@[low as int]@ == text@,
                forall|k: int| 0 <= k < low ==> text_precedes(#[trigger] self.items@[k]@, text@),
                forall|k: int|
                    high <= k < self.items@.len() ==> text_precedes(
                        text@,
                        #[trigger] self.items@[k]@,
                    ),
            decreases high - low + (if found { 0int } else { 1int }),
        {
            let middle = low + (high - low) / 2;
            let here = self.items[middle].as_str();
            match rank(here, text) {
                Rank::Before => {
                    assert forall|k: int| 0 <= k < middle + 1 implies text_precedes(
                        #[trigger] self.items@[k]@,
                        text@,
                    ) by {
                        if k < middle {
                            assert(text_precedes(self.items@[k]@, self.items@[middle as int]@));
                            lemma_precedes_transitive(key(self.items@[k]@), key(here@), key(text@));
                        }
                    }
                    low = middle + 1;
                },
                Rank::After => {
                    assert forall|k: int| middle <= k < self.items@.len() implies text_precedes(
                        text@,
                        #[trigger] self.items@[k]@,
                    ) by {
                        if middle < k {
                            assert(text_precedes(self.items@[middle as int]@, self.items@[k]@));
                            lemma_precedes_transitive(key(text@), key(here@), key(self.items@[k]@));
                        }
                    }
                    high = middle;
                },
                Rank::Same => {
                    assert forall|k: int| 0 <= k < middle implies text_precedes(
                        #[trigger] self.items@[k]@,
                        text@,
                    ) by {
                        assert(text_precedes(self.items@[k]@, self.items@[middle as int]@));
                    }
                    low = middle;
                    found = true;
                },
            }
        }
        proof {
            lemma_text_set_contains(self.items@, text@);
            if found {
                assert forall|k: int| low + 1 <= k < self.items@.len() implies text_precedes(
                    text@,
                    #[trigger] self.items@[k]@,
                ) by {
                    assert(text_precedes(self.items@[low as int]@, self.items@[k]@));
                }
            } else {
                assert forall|k: int| 0 <= k < self.items@.len() implies #[trigger] self.items@[k]@
                    != text@ by {
                    lemma_precedes_irreflexive(key(text@));
                    if k < low {
                        assert(text_precedes(self.items@[k]@, text@));
                    } else {
                        assert(text_precedes(text@, self.items@[k]@));
                    }
                }
            }
        }
        (low, found)
    }

    /// Whether the set holds the address.
    pub fn contains(&self, url: &Url) -> (held: bool)
        ensures
            held == self@.contains(url@),
    {
        self.find(url.as_str()).1
    }

    /// Adds the address unless the set holds it already; says whether it was
    /// added.
    pub fn insert(&mut self, url: Url) -> (added: bool)
        ensures
            final(self)@ == old(self)@.insert(url@),
            added == !old(self)@.contains(url@),
    {
        let place = self.find(url.as_str());
        if place.1 {
            assert(self@.insert(url@) =~= self@);
            false
        } else {
            proof {
                use_type_invariant(&*self);
                lemma_insert_in_order(self.items@, place.0 as int, url);
            }
            let mut items: Vec<Url> = Vec::new();
            core::mem::swap(&mut items, &mut self.items);
            items.insert(place.0, url);
            self.items = items;
            true
        }
    }

    /// The addresses in ascending order of their canonical text.
    pub fn into_sorted(self) -> (urls: Vec<Url>)
        ensures
            ascending(urls@),
            text_set(urls@) == self@,
    {
        proof {
            use_type_invariant(&self);
        }
        self.items
    }
}

} // verus!
