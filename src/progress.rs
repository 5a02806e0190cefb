use vstd::prelude::*;
use vstd::set_lib::{lemma_int_range, lemma_len_subset, lemma_subset_equality, set_int_range};

verus! {

/// Completion of a definition and everything it depends on.
#[derive(Clone, Copy, Debug, PartialEq, Eq, Structural)]
pub struct LoadProgress {
    pub loaded: u64,
    pub total: u64,
}

/// One entry of the asset store: whether its definition has resolved, and the
/// handles it declares as dependencies (known once it has resolved).
#[derive(Clone, Debug)]
pub struct DefinitionNode {
    pub resolved: bool,
    pub deps: Vec<usize>,
}

/// The resolved-definition store, addressed by handle (an index). A handle
/// outside the store is an unresolved definition; a well-formed store lists
/// only its own handles as dependencies.
#[derive(Clone, Debug)]
pub struct AssetStore {
    pub nodes: Vec<DefinitionNode>,
}

/// What a node of the store looks like to a specification.
pub struct NodeView {
    pub resolved: bool,
    pub deps: Seq<usize>,
}

impl View for DefinitionNode {
    type V = NodeView;

    open spec fn view(&self) -> NodeView {
        NodeView { resolved: self.resolved, deps: self.deps@ }
    }
}

impl AssetStore {
    pub open spec fn spec_nodes(&self) -> Seq<NodeView> {
        self.nodes@.map_values(|n: DefinitionNode| n@)
    }
}

pub open spec fn is_resolved(store: Seq<NodeView>, h: int) -> bool {
    0 <= h < store.len() && store[h].resolved
}

/// Completion as a whole percentage, saturated to 0..=100; no work at all is 100.
pub open spec fn percent_of(loaded: nat, total: nat) -> nat {
    if total == 0 || loaded >= total {
        100
    } else {
        (100 * loaded / total) as nat
    }
}

impl LoadProgress {
    pub open spec fn spec_percent(&self) -> nat {
        percent_of(self.loaded as nat, self.total as nat)
    }

    pub open spec fn spec_complete(&self) -> bool {
        self.loaded >= self.total
    }

    /// Completion as a whole percentage in 0..=100 (rounded down).
    pub fn as_percent(&self) -> (r: u64)
        ensures
            r == self.spec_percent(),
            r <= 100,
    {
        if self.total == 0 || self.loaded >= self.total {
            100
        } else {
            let l = self.loaded as u128;
            let t = self.total as u128;
            proof {
                let li = l as int;
                let ti = t as int;
                assert(100 * li / ti < 100) by (nonlinear_arith)
                    requires 0 <= li < ti;
                assert(100 * li / ti >= 0) by (nonlinear_arith)
                    requires 0 <= li, 0 < ti;
            }
            ((100 * l) / t) as u64
        }
    }

    /// Whether every counted item has loaded (the 100% mark).
    pub fn is_complete(&self) -> (r: bool)
        ensures
            r == self.spec_complete(),
            r == (self.spec_percent() == 100),
    {
        proof {
            if self.loaded < self.total {
                let l = self.loaded as int;
                let t = self.total as int;
                assert(100 * l / t < 100) by (nonlinear_arith)
                    requires 0 <= l < t;
            }
        }
        self.loaded >= self.total
    }
}

/// Every dependency that a definition of the store declares is a handle of the store.
pub open spec fn graph_wf(store: Seq<NodeView>) -> bool {
    forall|h: int, j: int|
        0 <= h < store.len() && 0 <= j < store[h].deps.len() ==> #[trigger] store[h].deps[j]
            < store.len()
}

/// `d` is a dependency that the resolved definition `h` declares.
pub open spec fn expands(store: Seq<NodeView>, h: int, d: int) -> bool {
    &&& is_resolved(store, h)
    &&& exists|j: int| 0 <= j < store[h].deps.len() && store[h].deps[j] as int == d
}

proof fn lemma_push_keeps(s: Seq<usize>, x: usize)
    ensures
        forall|y: usize| s.contains(y) ==> #[trigger] s.push(x).contains(y),
{
    assert forall|y: usize| s.contains(y) implies #[trigger] s.push(x).contains(y) by {
        let k = choose|k: int| 0 <= k < s.len() && s[k] == y;
        assert(s.push(x)[k] == y);
    }
}

/// A walk through resolved definitions along declared dependencies.
pub open spec fn is_path(store: Seq<NodeView>, p: Seq<int>) -> bool {
    &&& p.len() > 0
    &&& forall|i: int| 0 <= i < p.len() - 1 ==> #[trigger] expands(store, p[i], p[i + 1])
}

pub open spec fn reaches(store: Seq<NodeView>, root: int, h: int) -> bool {
    exists|p: Seq<int>| #[trigger] is_path(store, p) && p[0] == root && p.last() == h
}

/// The handles reachable from `root`: itself, and every dependency declared by
/// a reachable resolved definition.
pub open spec fn reachable(store: Seq<NodeView>, root: int) -> Set<int> {
    Set::new(|h: int| reaches(store, root, h))
}

pub open spec fn resolved_part(store: Seq<NodeView>, s: Set<int>) -> Set<int> {
    s.filter(|h: int| is_resolved(store, h))
}

/// (loaded, total) of the definition behind `root`: every reachable handle
/// counts once, and the resolved ones are loaded.
pub open spec fn root_progress(store: Seq<NodeView>, root: int) -> (nat, nat) {
    (resolved_part(store, reachable(store, root)).len(), reachable(store, root).len())
}

/// No resolved definition of `s` declares a dependency outside `s`.
pub open spec fn closed(store: Seq<NodeView>, s: Set<int>) -> bool {
    forall|h: int, d: int| s.contains(h) && #[trigger] expands(store, h, d) ==> s.contains(d)
}

proof fn lemma_reaches_self(store: Seq<NodeView>, root: int)
    ensures
        reaches(store, root, root),
{
    let p = seq![root];
    assert(is_path(store, p));
}

proof fn lemma_reaches_step(store: Seq<NodeView>, root: int, h: int, d: int)
    requires
        reaches(store, root, h),
        expands(store, h, d),
    ensures
        reaches(store, root, d),
{
    let p = choose|p: Seq<int>| #[trigger] is_path(store, p) && p[0] == root && p.last() == h;
    let q = p.push(d);
    assert forall|i: int| 0 <= i < q.len() - 1 implies #[trigger] expands(store, q[i], q[i + 1]) by {
        if i < p.len() - 1 {
            assert(expands(store, p[i], p[i + 1]));
        }
    }
    assert(is_path(store, q));
}

proof fn lemma_path_stays_in(store: Seq<NodeView>, s: Set<int>, p: Seq<int>)
    requires
        is_path(store, p),
        s.contains(p[0]),
        closed(store, s),
    ensures
        s.contains(p.last()),
    decreases p.len(),
{
    if p.len() > 1 {
        let q = p.drop_last();
        assert forall|i: int| 0 <= i < q.len() - 1 implies #[trigger] expands(store, q[i], q[i + 1]) by {
            assert(expands(store, p[i], p[i + 1]));
        }
        lemma_path_stays_in(store, s, q);
        let i = p.len() - 2;
        assert(expands(store, p[i], p[i + 1]));
    }
}

/// A closed set of reachable handles that holds the root is the reachable set.
proof fn lemma_reachable_is(store: Seq<NodeView>, root: int, s: Set<int>)
    requires
        s.contains(root),
        closed(store, s),
        forall|h: int| s.contains(h) ==> reaches(store, root, h),
    ensures
        reachable(store, root) == s,
{
    assert forall|h: int| reaches(store, root, h) implies s.contains(h) by {
        let p = choose|p: Seq<int>| #[trigger] is_path(store, p) && p[0] == root && p.last() == h;
        lemma_path_stays_in(store, s, p);
    }
    assert(reachable(store, root) =~= s);
}

/// In a well-formed store only the root and handles of the store are reachable.
proof fn lemma_reachable_finite(store: Seq<NodeView>, root: int)
    requires
        graph_wf(store),
    ensures
        reachable(store, root).finite(),
        resolved_part(store, reachable(store, root)).finite(),
        resolved_part(store, reachable(store, root)).len() <= reachable(store, root).len(),
        reachable(store, root).contains(root),
{
    let bound = set_int_range(0, store.len() as int).insert(root);
    lemma_int_range(0, store.len() as int);
    assert forall|h: int| reachable(store, root).contains(h) implies bound.contains(h) by {
        let p = choose|p: Seq<int>| #[trigger] is_path(store, p) && p[0] == root && p.last() == h;
        if p.len() > 1 {
            let i = p.len() - 2;
            let g = p[i];
            assert(expands(store, p[i], p[i + 1]));
            let j = choose|j: int| 0 <= j < store[g].deps.len() && store[g].deps[j] as int == h;
            assert(store[g].deps[j] < store.len());
        }
    }
    lemma_len_subset(reachable(store, root), bound);
    lemma_len_subset(resolved_part(store, reachable(store, root)), reachable(store, root));
    lemma_reaches_self(store, root);
}

/// Whatever the graph, every handle reachable from a definition counts once:
/// there is at least one (the root itself), the loaded ones never outnumber
/// the total, and the percentage stays within 0..=100.
pub proof fn lemma_loaded_within_total(store: Seq<NodeView>, root: int)
    requires
        graph_wf(store),
    ensures
        root_progress(store, root).0 <= root_progress(store, root).1,
        root_progress(store, root).1 >= 1,
        percent_of(root_progress(store, root).0, root_progress(store, root).1) <= 100,
{
    lemma_reachable_finite(store, root);
    let (l, t) = root_progress(store, root);
    if l < t {
        assert(100 * l / t < 100) by (nonlinear_arith)
            requires l < t;
    }
}

/// A definition is at 100% exactly when every handle reachable from it has
/// resolved.
pub proof fn lemma_complete_iff_all_resolved(store: Seq<NodeView>, root: int)
    requires
        graph_wf(store),
    ensures
        (root_progress(store, root).0 >= root_progress(store, root).1) == (forall|h: int|
            reachable(store, root).contains(h) ==> is_resolved(store, h)),
{
    lemma_reachable_finite(store, root);
    let r = reachable(store, root);
    let rp = resolved_part(store, r);
    if rp.len() >= r.len() {
        lemma_subset_equality(rp, r);
        assert forall|h: int| r.contains(h) implies is_resolved(store, h) by {
            assert(rp.contains(h));
        }
    }
    if forall|h: int| r.contains(h) ==> is_resolved(store, h) {
        assert(rp =~= r);
    }
}

/// `later` is `earlier` after some definitions moved from unresolved to
/// resolved: nothing became unresolved, and a resolved definition keeps the
/// dependencies it declared.
pub open spec fn resolves_more(earlier: Seq<NodeView>, later: Seq<NodeView>) -> bool {
    &&& earlier.len() == later.len()
    &&& forall|h: int|
        0 <= h < earlier.len() && #[trigger] earlier[h].resolved ==> later[h].resolved
            && later[h].deps == earlier[h].deps
}

/// The definitions that newly resolved between `earlier` and `later` declare no
/// further dependencies, so the graph is already fully discovered.
pub open spec fn discovers_nothing(earlier: Seq<NodeView>, later: Seq<NodeView>) -> bool {
    forall|h: int|
        0 <= h < earlier.len() && !earlier[h].resolved && #[trigger] later[h].resolved
            ==> later[h].deps.len() == 0
}

proof fn lemma_paths_carry_over(s1: Seq<NodeView>, s2: Seq<NodeView>, p: Seq<int>)
    requires
        resolves_more(s1, s2),
        is_path(s1, p),
    ensures
        is_path(s2, p),
        discovers_nothing(s1, s2) ==> forall|q: Seq<int>| is_path(s2, q) ==> #[trigger] is_path(s1, q),
{
    assert forall|i: int| 0 <= i < p.len() - 1 implies #[trigger] expands(s2, p[i], p[i + 1]) by {
        assert(expands(s1, p[i], p[i + 1]));
        assert(s1[p[i]].resolved);
    }
    if discovers_nothing(s1, s2) {
        assert forall|q: Seq<int>| is_path(s2, q) implies #[trigger] is_path(s1, q) by {
            assert forall|i: int| 0 <= i < q.len() - 1 implies #[trigger] expands(s1, q[i], q[i + 1]) by {
                assert(expands(s2, q[i], q[i + 1]));
                let h = q[i];
                assert(s2[h].resolved);
                assert(s2[h].deps.len() > 0);
                if !s1[h].resolved {
                    assert(s2[h].deps.len() == 0);
                }
                assert(s1[h].resolved);
            }
        }
    }
}

/// As definitions move from unresolved to resolved, the total never shrinks;
/// once the graph is fully discovered (the newly resolved definitions declare
/// nothing further), the total stays put and the percentage never goes down.
pub proof fn lemma_progress_monotone(earlier: Seq<NodeView>, later: Seq<NodeView>, root: int)
    requires
        graph_wf(earlier),
        graph_wf(later),
        resolves_more(earlier, later),
    ensures
        root_progress(earlier, root).1 <= root_progress(later, root).1,
        discovers_nothing(earlier, later) ==> root_progress(earlier, root).1 == root_progress(
            later,
            root,
        ).1 && root_progress(earlier, root).0 <= root_progress(later, root).0 && percent_of(
            root_progress(earlier, root).0,
            root_progress(earlier, root).1,
        ) <= percent_of(root_progress(later, root).0, root_progress(later, root).1),
{
    lemma_reachable_finite(earlier, root);
    lemma_reachable_finite(later, root);
    let r1 = reachable(earlier, root);
    let r2 = reachable(later, root);
    assert forall|h: int| r1.contains(h) implies r2.contains(h) by {
        let p = choose|p: Seq<int>| #[trigger] is_path(earlier, p) && p[0] == root && p.last() == h;
        lemma_paths_carry_over(earlier, later, p);
    }
    lemma_len_subset(r1, r2);
    if discovers_nothing(earlier, later) {
        lemma_reaches_self(earlier, root);
        let p0 = choose|p: Seq<int>| #[trigger] is_path(earlier, p) && p[0] == root && p.last() == root;
        lemma_paths_carry_over(earlier, later, p0);
        assert forall|h: int| r2.contains(h) implies r1.contains(h) by {
            let p = choose|p: Seq<int>| #[trigger] is_path(later, p) && p[0] == root && p.last() == h;
            assert(is_path(earlier, p));
        }
        assert(r1 =~= r2);
        let rp1 = resolved_part(earlier, r1);
        let rp2 = resolved_part(later, r2);
        assert forall|h: int| rp1.contains(h) implies rp2.contains(h) by {
            assert(earlier[h].resolved);
        }
        lemma_len_subset(rp1, rp2);
        let (l1, t) = root_progress(earlier, root);
        let l2 = root_progress(later, root).0;
        if t > 0 && l2 < t {
            assert(100 * l1 / t <= 100 * l2 / t) by (nonlinear_arith)
                requires l1 <= l2, t > 0;
        } else if t > 0 && l1 < t {
            assert(100 * l1 / t < 100) by (nonlinear_arith)
                requires l1 < t;
        }
    }
}

impl AssetStore {
    pub open spec fn wf(&self) -> bool {
        graph_wf(self.spec_nodes())
    }

    /// Whether every dependency that a definition declares is a handle of the store.
    pub fn is_well_formed(&self) -> (r: bool)
        ensures
            r == self.wf(),
    {
        let n = self.nodes.len();
        let mut h: usize = 0;
        while h < n
            invariant
                n == self.nodes.len(),
                0 <= h <= n,
                forall|g: int, j: int|
                    0 <= g < h && 0 <= j < self.spec_nodes()[g].deps.len()
                        ==> #[trigger] self.spec_nodes()[g].deps[j] < n,
            decreases n - h,
        {
            let deps = &self.nodes[h].deps;
            assert(deps@ == self.spec_nodes()[h as int].deps);
            let mut j: usize = 0;
            while j < deps.len()
                invariant
                    n == self.nodes.len(),
                    0 <= h < n,
                    deps@ == self.spec_nodes()[h as int].deps,
                    0 <= j <= deps.len(),
                    forall|g: int, k: int|
                        0 <= g < h && 0 <= k < self.spec_nodes()[g].deps.len()
                            ==> #[trigger] self.spec_nodes()[g].deps[k] < n,
                    forall|k: int| 0 <= k < j ==> #[trigger] deps@[k] < n,
                decreases deps.len() - j,
            {
                if deps[j] >= n {
                    assert(self.spec_nodes()[h as int].deps[j as int] >= n);
                    return false;
                }
                j = j + 1;
            }
            h = h + 1;
        }
        true
    }

    /// Whether the definition behind `h` has resolved.
    pub fn is_resolved(&self, h: usize) -> (r: bool)
        ensures
            r == is_resolved(self.spec_nodes(), h as int),
    {
        h < self.nodes.len() && self.nodes[h].resolved
    }

    /// Aggregated progress of the definition behind `root`: a walk with a
    /// visited set counts every reachable handle once, so it ends on any graph,
    /// cycles included, after visiting each handle and dependency once.
    pub fn load_progress(&self, root: usize) -> (r: LoadProgress)
        requires
            self.wf(),
        ensures
            (r.loaded as nat, r.total as nat) == root_progress(self.spec_nodes(), root as int),
    {
        let ghost store = self.spec_nodes();
        let n = self.nodes.len();
        if root >= n {
            proof {
                let s = set![root as int];
                lemma_reaches_self(store, root as int);
                lemma_reachable_is(store, root as int, s);
                assert(resolved_part(store, s) =~= Set::<int>::empty());
                assert(s.len() == 1);
            }
            return LoadProgress { loaded: 0, total: 1 };
        }
        let mut visited: Vec<bool> = Vec::new();
        let mut i: usize = 0;
        while i < n
            invariant
                0 <= i <= n,
                visited.len() == i,
                forall|k: int| 0 <= k < i ==> !(#[trigger] visited@[k]),
            decreases n - i,
        {
            visited.push(false);
            i = i + 1;
        }
        visited.set(root, true);
        let mut worklist: Vec<usize> = Vec::new();
        worklist.push(root);
        let mut total: usize = 1;
        let mut loaded: usize = if self.nodes[root].resolved {
            1
        } else {
            0
        };
        let ghost mut vis: Set<int> = set![root as int];
        proof {
            assert(worklist@[0] == root);
            assert(worklist@.contains(root));
            lemma_reaches_self(store, root as int);
            lemma_int_range(0, n as int);
            if store[root as int].resolved {
                assert(resolved_part(store, vis) =~= vis);
            } else {
                assert(resolved_part(store, vis) =~= Set::<int>::empty());
            }
        }
        while worklist.len() > 0
            invariant
                store == self.spec_nodes(),
                graph_wf(store),
                n == self.nodes.len(),
                root < n,
                visited.len() == n,
                set_int_range(0, n as int).finite(),
                set_int_range(0, n as int).len() == n,
                forall|k: int| 0 <= k < n ==> (visited@[k] <==> vis.contains(k)),
                forall|k: int| vis.contains(k) ==> 0 <= k < n,
                vis.finite(),
                total as nat == vis.len(),
                total <= n,
                loaded <= total,
                loaded as nat == resolved_part(store, vis).len(),
                vis.contains(root as int),
                forall|k: int| vis.contains(k) ==> reaches(store, root as int, k),
                forall|j: int| 0 <= j < worklist.len() ==> vis.contains(#[trigger] worklist@[j] as int),
                forall|g: int, d: int|
                    vis.contains(g) && !worklist@.contains(g as usize) && #[trigger] expands(
                        store,
                        g,
                        d,
                    ) ==> vis.contains(d),
            decreases 2 * (n - total) + worklist.len(),
        {
            let ghost wl0 = worklist@;
            let h = worklist.pop().unwrap();
            assert(vis.contains(h as int));
            proof {
                assert(wl0 =~= worklist@.push(h));
                assert forall|x: usize| wl0.contains(x) implies x == h || worklist@.contains(x) by {
                    let k = choose|k: int| 0 <= k < wl0.len() && wl0[k] == x;
                    if k < worklist.len() {
                        assert(worklist@[k] == x);
                    }
                }
            }
            let ghost m0: int = 2 * (n - total) + worklist.len();
            if self.nodes[h].resolved {
                let deps = &self.nodes[h].deps;
                assert(deps@ == store[h as int].deps);
                let mut j: usize = 0;
                while j < deps.len()
                    invariant
                        store == self.spec_nodes(),
                        graph_wf(store),
                        n == self.nodes.len(),
                        root < n,
                        h < n,
                        is_resolved(store, h as int),
                        vis.contains(h as int),
                        deps@ == store[h as int].deps,
                        0 <= j <= deps.len(),
                        visited.len() == n,
                        set_int_range(0, n as int).finite(),
                        set_int_range(0, n as int).len() == n,
                        forall|k: int| 0 <= k < n ==> (visited@[k] <==> vis.contains(k)),
                        forall|k: int| vis.contains(k) ==> 0 <= k < n,
                        vis.finite(),
                        total as nat == vis.len(),
                        total <= n,
                        loaded <= total,
                        loaded as nat == resolved_part(store, vis).len(),
                        vis.contains(root as int),
                        forall|k: int| vis.contains(k) ==> reaches(store, root as int, k),
                        forall|i: int|
                            0 <= i < worklist.len() ==> vis.contains(#[trigger] worklist@[i] as int),
                        forall|k: int| 0 <= k < j ==> vis.contains(#[trigger] deps@[k] as int),
                        forall|g: int, d: int|
                            vis.contains(g) && g != h && !worklist@.contains(g as usize)
                                && #[trigger] expands(store, g, d) ==> vis.contains(d),
                        2 * (n - total) + worklist.len() <= m0,
                    decreases deps.len() - j,
                {
                    let d = deps[j];
                    assert(store[h as int].deps[j as int] < n);
                    if !visited[d] {
                        proof {
                            assert(store[h as int].deps[j as int] as int == d as int);
                            assert(expands(store, h as int, d as int));
                            lemma_push_keeps(worklist@, d);
                            lemma_reaches_step(store, root as int, h as int, d as int);
                            lemma_len_subset(vis.insert(d as int), set_int_range(0, n as int));
                            let rp = resolved_part(store, vis);
                            if store[d as int].resolved {
                                assert(resolved_part(store, vis.insert(d as int)) =~= rp.insert(d as int));
                            } else {
                                assert(resolved_part(store, vis.insert(d as int)) =~= rp);
                            }
                            vis = vis.insert(d as int);
                            lemma_len_subset(resolved_part(store, vis), vis);
                        }
                        visited.set(d, true);
                        total = total + 1;
                        if self.nodes[d].resolved {
                            loaded = loaded + 1;
                        }
                        worklist.push(d);
                        assert(worklist@[worklist.len() - 1] == d);
                    }
                    j = j + 1;
                }
                proof {
                    assert forall|d: int| #[trigger] expands(store, h as int, d) implies vis.contains(d) by {
                        let k = choose|k: int| 0 <= k < deps@.len() && deps@[k] as int == d;
                        assert(vis.contains(deps@[k] as int));
                    }
                }
            }
        }
        proof {
            assert(worklist@ =~= Seq::<usize>::empty());
            lemma_reachable_is(store, root as int, vis);
        }
        LoadProgress { loaded: loaded as u64, total: total as u64 }
    }
}

/// Whether the definition behind `root` has loaded: every handle reachable from
/// it has resolved, so its progress is at 100%. An unresolved root is simply
/// not loaded yet.
pub fn assets_loaded(store: &AssetStore, root: usize) -> (r: bool)
    requires
        store.wf(),
    ensures
        r == (root_progress(store.spec_nodes(), root as int).0 >= root_progress(
            store.spec_nodes(),
            root as int,
        ).1),
        r == (forall|h: int|
            reachable(store.spec_nodes(), root as int).contains(h) ==> is_resolved(
                store.spec_nodes(),
                h,
            )),
        r ==> is_resolved(store.spec_nodes(), root as int),
{
    proof {
        lemma_complete_iff_all_resolved(store.spec_nodes(), root as int);
        lemma_reachable_finite(store.spec_nodes(), root as int);
    }
    store.load_progress(root).is_complete()
}

} // verus!
