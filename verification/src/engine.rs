use vstd::prelude::*;
use crate::frontier::Frontier;
use crate::urls::{CrawlUrl, UrlModel, normalize, normalized_key};

verus! {

/// The crawl lifecycle: submissions flow while the engine runs; once the
/// quiescence window elapses with no submission, the crawl is terminated
/// for good — there is no cancellation and no restart.
pub enum Phase {
    Running,
    Terminated,
}

/// What the consumer loop observes: either a URL submitted by a worker (or
/// the seed), or the quiescence window elapsing with nothing submitted.
/// Quiescence is a heuristic, and the window a correctness-relevant tuning
/// parameter: a window shorter than a single fetch can end the crawl while
/// a worker is still mid-fetch, and what that worker would have submitted
/// is then never processed. A timeout event stands for the judgement that
/// nothing more will ever arrive.
pub enum CrawlEvent {
    Submitted(CrawlUrl),
    TimedOut,
}

/// What the consumer loop decides: hand a URL to the worker pool, skip a
/// duplicate, or declare the crawl complete with the count of distinct
/// URLs processed.
pub enum CrawlAction {
    Dispatch(CrawlUrl),
    Skip,
    Finish(usize),
}

/// The single arbitration point of the crawl: the one owner of the
/// frontier, fed by every producer through one channel. Its view is the
/// sequence of Normalized Keys dispatched so far, in dispatch order.
pub struct Engine {
    frontier: Frontier,
    phase: Phase,
}

/// The keys dispatched after a sequence of submissions, starting from an
/// empty frontier: each submission's Normalized Key is appended exactly
/// when it has not been dispatched before.
pub open spec fn dispatched_keys(subs: Seq<UrlModel>) -> Seq<Seq<char>>
    decreases subs.len(),
{
    if subs.len() == 0 {
        Seq::empty()
    } else {
        let prev = dispatched_keys(subs.drop_last());
        let k = normalized_key(subs.last());
        if prev.contains(k) {
            prev
        } else {
            prev.push(k)
        }
    }
}

/// The set of Normalized Keys of a sequence of submissions.
pub open spec fn submitted_keys(subs: Seq<UrlModel>) -> Set<Seq<char>> {
    subs.map_values(|u: UrlModel| normalized_key(u)).to_set()
}

impl View for Engine {
    type V = Seq<Seq<char>>;

    closed spec fn view(&self) -> Seq<Seq<char>> {
        self.frontier@
    }
}

impl Engine {
    pub closed spec fn inv(&self) -> bool {
        self.frontier.inv()
    }

    pub closed spec fn running(&self) -> bool {
        self.phase is Running
    }

    /// A fresh engine: empty frontier, crawl running.
    pub fn new() -> (r: Engine)
        ensures
            r@ == Seq::<Seq<char>>::empty(),
            r.inv(),
            r.running(),
    {
        Engine { frontier: Frontier::new(), phase: Phase::Running }
    }

    /// Is the crawl still running?
    pub fn is_running(&self) -> (r: bool)
        ensures
            r == self.running(),
    {
        matches!(self.phase, Phase::Running)
    }

    /// One turn of the consumer loop. A submission whose Normalized Key is
    /// new is recorded and dispatched; one already seen is skipped and the
    /// frontier is unchanged — the check and the insertion are one step, so
    /// no two producers can both see "absent". A timeout terminates the
    /// crawl and reports the count of distinct keys processed.
    pub fn step(&mut self, event: CrawlEvent) -> (a: CrawlAction)
        requires
            old(self).inv(),
            old(self).running(),
        ensures
            final(self).inv(),
            match event {
                CrawlEvent::Submitted(u) => {
                    &&& final(self).running()
                    &&& if old(self)@.contains(normalized_key(u@)) {
                        final(self)@ == old(self)@ && a == CrawlAction::Skip
                    } else {
                        final(self)@ == old(self)@.push(normalized_key(u@))
                            && a == CrawlAction::Dispatch(u)
                    }
                },
                CrawlEvent::TimedOut => {
                    &&& !final(self).running()
                    &&& final(self)@ == old(self)@
                    &&& a == CrawlAction::Finish(old(self)@.len() as usize)
                },
            },
    {
        match event {
            CrawlEvent::Submitted(url) => {
                let key = normalize(&url);
                if self.frontier.try_insert(key) {
                    CrawlAction::Dispatch(url)
                } else {
                    CrawlAction::Skip
                }
            },
            CrawlEvent::TimedOut => {
                self.phase = Phase::Terminated;
                CrawlAction::Finish(self.frontier.len())
            },
        }
    }
}

/// One more submission moves `dispatched_keys` exactly as `Engine::step`
/// moves a running engine's view on a `Submitted` event: an engine whose
/// view is `dispatched_keys(subs)` keeps, step by step, the view
/// `dispatched_keys` of all submissions so far.
pub proof fn lemma_dispatched_keys_step(subs: Seq<UrlModel>, u: UrlModel)
    ensures
        dispatched_keys(subs.push(u)) == if dispatched_keys(subs).contains(normalized_key(u)) {
            dispatched_keys(subs)
        } else {
            dispatched_keys(subs).push(normalized_key(u))
        },
{
    assert(subs.push(u).drop_last() =~= subs);
}

/// Dedup law: over any sequence of submissions the dispatched keys are
/// pairwise distinct — the per-URL pipeline runs at most once for each
/// Normalized Key, however many submissions normalize to it.
pub proof fn lemma_dispatch_at_most_once(subs: Seq<UrlModel>)
    ensures
        dispatched_keys(subs).no_duplicates(),
    decreases subs.len(),
{
    if subs.len() > 0 {
        lemma_dispatch_at_most_once(subs.drop_last());
    }
}

/// Completion law: after any sequence of submissions, the dispatched keys
/// are exactly the distinct Normalized Keys submitted, and their number —
/// the count a quiescence timeout reports — is the size of that set.
pub proof fn lemma_quiescent_count(subs: Seq<UrlModel>)
    ensures
        dispatched_keys(subs).to_set() == submitted_keys(subs),
        dispatched_keys(subs).len() == submitted_keys(subs).len(),
    decreases subs.len(),
{
    let dk = dispatched_keys(subs);
    let mapped = subs.map_values(|u: UrlModel| normalized_key(u));
    if subs.len() == 0 {
        assert(dk.to_set() =~= submitted_keys(subs));
    } else {
        let prior = subs.drop_last();
        lemma_quiescent_count(prior);
        assert(prior.map_values(|u: UrlModel| normalized_key(u))
            =~= mapped.drop_last());
        assert(mapped =~= mapped.drop_last().push(mapped.last()));
        lemma_seq_to_set_push(mapped.drop_last(), mapped.last());
        assert(mapped.last() == normalized_key(subs.last()));
        let pk = dispatched_keys(prior);
        let k = normalized_key(subs.last());
        if pk.contains(k) {
            assert(pk.to_set().contains(k));
            assert(dk.to_set() =~= submitted_keys(subs));
        } else {
            lemma_seq_to_set_push(pk, k);
            assert(dk.to_set() =~= submitted_keys(subs));
            assert(!pk.to_set().contains(k));
        }
    }
    lemma_dispatch_at_most_once(subs);
    dk.unique_seq_to_set();
}

/// A link graph over Normalized Keys: each key maps to the keys its page
/// links to. An edge means the page at `a` links to `b`.
pub open spec fn edge(graph: Map<Seq<char>, Set<Seq<char>>>, a: Seq<char>, b: Seq<char>) -> bool {
    graph.dom().contains(a) && graph[a].contains(b)
}

/// A walk through the graph: consecutive entries are edges.
pub open spec fn is_walk(graph: Map<Seq<char>, Set<Seq<char>>>, p: Seq<Seq<char>>) -> bool {
    forall|i: int| 0 <= i < p.len() - 1 ==> edge(graph, p[i], #[trigger] p[i + 1])
}

/// A quiescent run over the graph: every link of every dispatched page was
/// submitted before the run went quiet — nothing a processed page links to
/// is still outstanding.
pub open spec fn quiescent_over(graph: Map<Seq<char>, Set<Seq<char>>>, subs: Seq<UrlModel>) -> bool {
    forall|k: Seq<char>|
        dispatched_keys(subs).contains(k) && graph.dom().contains(k) ==> (#[trigger] graph[k])
            <= submitted_keys(subs)
}

/// Quiescence-termination law, graph half: in a run that is quiescent over
/// a site's link graph and whose submissions include the seed, every key
/// reachable from the seed has been dispatched — with the dedup law,
/// exactly once — so the reported count covers the whole reachable graph.
/// The other half, that the run does go quiescent and only after all links
/// were submitted, rests on the quiescence window outrunning every fetch;
/// that is the window's tuning burden, not a property of this model.
pub proof fn lemma_reachable_is_dispatched(
    graph: Map<Seq<char>, Set<Seq<char>>>,
    subs: Seq<UrlModel>,
    walk: Seq<Seq<char>>,
)
    requires
        quiescent_over(graph, subs),
        walk.len() > 0,
        is_walk(graph, walk),
        submitted_keys(subs).contains(walk[0]),
    ensures
        dispatched_keys(subs).contains(walk.last()),
    decreases walk.len(),
{
    lemma_quiescent_count(subs);
    if walk.len() == 1 {
        assert(dispatched_keys(subs).to_set().contains(walk[0]));
    } else {
        let prefix = walk.drop_last();
        assert(is_walk(graph, prefix)) by {
            assert(forall|i: int|
                0 <= i < prefix.len() - 1 ==> edge(graph, prefix[i], #[trigger] prefix[i + 1])
                    == edge(graph, walk[i], walk[i + 1]));
        }
        lemma_reachable_is_dispatched(graph, subs, prefix);
        let before = prefix.last();
        assert(walk[walk.len() - 2 + 1] == walk.last());
        assert(edge(graph, before, walk.last()));
        assert(submitted_keys(subs).contains(walk.last()));
        assert(dispatched_keys(subs).to_set().contains(walk.last()));
    }
}

/// Pushing an element onto a sequence inserts it into the sequence's set.
proof fn lemma_seq_to_set_push(s: Seq<Seq<char>>, x: Seq<char>)
    ensures
        s.push(x).to_set() == s.to_set().insert(x),
{
    assert forall|y: Seq<char>| s.push(x).to_set().contains(y)
        implies s.to_set().insert(x).contains(y) by {
        let i = choose|i: int| 0 <= i < s.push(x).len() && s.push(x)[i] == y;
        if i < s.len() {
            assert(s[i] == y);
        }
    }
    assert forall|y: Seq<char>| s.to_set().insert(x).contains(y)
        implies s.push(x).to_set().contains(y) by {
        if y == x {
            assert(s.push(x)[s.len() as int] == y);
        } else {
            let i = choose|i: int| 0 <= i < s.len() && s[i] == y;
            assert(s.push(x)[i] == y);
        }
    }
    assert(s.push(x).to_set() =~= s.to_set().insert(x));
}

} // verus!
