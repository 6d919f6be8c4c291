//! What holds of every crawl, whatever documents arrive.

use vstd::prelude::*;
use vstd::set_lib::lemma_len_subset;
use crate::crawler::{
    abandoned, advance, fetches, merged, run, scheduled, sitemap_targets, step, Crawl, Event, Target,
};

verus! {

/// The fetch gate asks only for an address that was not visited, marks it
/// visited, forgets no visited address and leaves the results alone. Where it
/// asks for nothing, the worklist is empty and nothing was marked.
pub proof fn law_gate(crawl: Crawl)
    ensures
        advance(crawl).0.results == crawl.results,
        crawl.visited.subset_of(advance(crawl).0.visited),
        match advance(crawl).1 {
            Some(target) => !crawl.visited.contains(target.url) && advance(crawl).0.visited
                == crawl.visited.insert(target.url),
            None => advance(crawl).0.visited == crawl.visited && advance(crawl).0.pending.len() == 0,
        },
    decreases crawl.pending.len(),
{
    if crawl.pending.len() > 0 {
        let next = crawl.pending.last();
        if crawl.visited.contains(next.url) {
            law_gate(Crawl { pending: crawl.pending.drop_last(), ..crawl });
        }
    }
}

/// An address that was visited is never fetched again: a seed whose address
/// was visited is passed over, and the crawl goes on as if the seed had not
/// been named.
pub proof fn law_revisit_is_skipped(crawl: Crawl, target: Target)
    requires
        crawl.visited.contains(target.url),
    ensures
        step(crawl, Event::Seed(target)) == advance(crawl),
{
    let with_seed = scheduled(crawl, seq![target]);
    assert(seq![target].reverse() =~= seq![target]);
    assert(with_seed.pending.drop_last() =~= crawl.pending);
    assert(with_seed.pending.last() == target);
    assert((Crawl { pending: with_seed.pending.drop_last(), ..with_seed }) == crawl);
}

/// No event makes the crawl forget a visited address or a result, and a
/// request is only ever made for an address that was not visited, which is
/// visited from then on.
pub proof fn law_step(crawl: Crawl, event: Event)
    ensures
        crawl.visited.subset_of(step(crawl, event).0.visited),
        crawl.results.subset_of(step(crawl, event).0.results),
        match step(crawl, event).1 {
            Some(target) => !crawl.visited.contains(target.url) && step(
                crawl,
                event,
            ).0.visited.contains(target.url),
            None => true,
        },
{
    match event {
        Event::Seed(target) => {
            law_gate(scheduled(crawl, seq![target]));
        },
        Event::Sitemap(pages, children) => {
            law_gate(merged(crawl, pages, children));
        },
        Event::Robots(sitemaps) => {
            if sitemaps.len() > 0 {
                law_gate(scheduled(crawl, sitemap_targets(sitemaps)));
            }
        },
        Event::Fault => {},
    }
}

/// A robots.txt document that declares no sitemap, and a document that could
/// not be fetched or read, add nothing to the results, ask for nothing and
/// leave nothing pending.
pub proof fn law_fault_abandons(crawl: Crawl)
    ensures
        step(crawl, Event::Robots(Seq::empty())) == (abandoned(crawl), None::<Target>),
        step(crawl, Event::Fault) == (abandoned(crawl), None::<Target>),
        abandoned(crawl).results == crawl.results,
        abandoned(crawl).visited == crawl.visited,
        abandoned(crawl).pending.len() == 0,
{
}

/// The visited set and the results only grow during a run.
pub proof fn law_sets_grow(crawl: Crawl, events: Seq<Event>)
    ensures
        crawl.visited.subset_of(run(crawl, events).visited),
        crawl.results.subset_of(run(crawl, events).results),
    decreases events.len(),
{
    if events.len() > 0 {
        law_sets_grow(crawl, events.drop_last());
        law_step(run(crawl, events.drop_last()), events.last());
    }
}

/// The pages that the sitemap documents of a run list.
pub open spec fn listed(events: Seq<Event>) -> Set<Seq<char>>
    decreases events.len(),
{
    if events.len() == 0 {
        Set::empty()
    } else {
        match events.last() {
            Event::Sitemap(pages, _) => listed(events.drop_last()).union(pages.to_set()),
            _ => listed(events.drop_last()),
        }
    }
}

/// The results after a run are the results before it and the pages that the
/// sitemap documents of the run list: a fault takes nothing back, and
/// nothing else gets in.
pub proof fn law_results_are_the_listed_pages(crawl: Crawl, events: Seq<Event>)
    ensures
        run(crawl, events).results == crawl.results.union(listed(events)),
    decreases events.len(),
{
    if events.len() == 0 {
        assert(crawl.results.union(listed(events)) =~= crawl.results);
    } else {
        let before = run(crawl, events.drop_last());
        law_results_are_the_listed_pages(crawl, events.drop_last());
        match events.last() {
            Event::Seed(target) => {
                law_gate(scheduled(before, seq![target]));
            },
            Event::Sitemap(pages, children) => {
                law_gate(merged(before, pages, children));
                assert(before.results.union(pages.to_set()) =~= crawl.results.union(listed(events)));
            },
            Event::Robots(sitemaps) => {
                if sitemaps.len() > 0 {
                    law_gate(scheduled(before, sitemap_targets(sitemaps)));
                }
            },
            Event::Fault => {},
        }
    }
}

/// No address is fetched twice in a run: the requests of a run are for
/// pairwise different addresses, none of which was visited before the run,
/// and all of which are visited after it.
pub proof fn law_no_url_fetched_twice(crawl: Crawl, events: Seq<Event>)
    ensures
        fetches(crawl, events).no_duplicates(),
        forall|i: int|
            0 <= i < fetches(crawl, events).len() ==> !crawl.visited.contains(
                #[trigger] fetches(crawl, events)[i],
            ) && run(crawl, events).visited.contains(fetches(crawl, events)[i]),
    decreases events.len(),
{
    if events.len() > 0 {
        let earlier = events.drop_last();
        let before = run(crawl, earlier);
        law_no_url_fetched_twice(crawl, earlier);
        law_sets_grow(crawl, earlier);
        law_step(before, events.last());
    }
}

/// A crawl over finitely many addresses ends: a run makes at most as many
/// requests as there are addresses that were not visited before it.
pub proof fn law_fetches_bounded(crawl: Crawl, events: Seq<Event>, universe: Set<Seq<char>>)
    requires
        universe.finite(),
        forall|i: int|
            0 <= i < fetches(crawl, events).len() ==> universe.contains(
                #[trigger] fetches(crawl, events)[i],
            ),
    ensures
        fetches(crawl, events).len() <= universe.difference(crawl.visited).len(),
{
    let asked = fetches(crawl, events);
    law_no_url_fetched_twice(crawl, events);
    asked.unique_seq_to_set();
    let fresh = universe.difference(crawl.visited);
    assert forall|u: Seq<char>| asked.to_set().contains(u) implies fresh.contains(u) by {
        let i = choose|i: int| 0 <= i < asked.len() && asked[i] == u;
        assert(universe.contains(asked[i]));
    }
    lemma_len_subset(asked.to_set(), fresh);
}

} // verus!
