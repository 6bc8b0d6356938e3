use vstd::prelude::*;

use pathfinding::directed::astar::astar;

use crate::traits::{FiniteFloat, HasQuantizationMethods};
use crate::utils::quantizer_3d::Quantizer3d;

verus! {

/// A node of the discrete search space: one grid index per dimension.
pub type GridNode = (usize, usize, usize);

/// Sum of a sequence of edge costs.
pub open spec fn cost_sum(costs: Seq<u64>) -> int
    decreases costs.len(),
{
    if costs.len() == 0 {
        0
    } else {
        costs[0] + cost_sum(costs.subrange(1, costs.len() as int))
    }
}

/// All three callbacks may be called on the node `m`.
pub open spec fn node_callable<FN, FH, FS>(
    successors: FN,
    heuristic: FH,
    success: FS,
    m: GridNode,
) -> bool where
    FN: Fn(GridNode) -> Vec<(GridNode, u64)>,
    FH: Fn(GridNode) -> u64,
    FS: Fn(GridNode) -> bool,
{
    &&& call_requires(successors, (m,))
    &&& call_requires(heuristic, (m,))
    &&& call_requires(success, (m,))
}

/// The callbacks may be called on every node the search can touch: on
/// the start node, and on every node any successor list can report.
pub open spec fn callbacks_callable<FN, FH, FS>(
    successors: FN,
    heuristic: FH,
    success: FS,
    start: GridNode,
) -> bool where
    FN: Fn(GridNode) -> Vec<(GridNode, u64)>,
    FH: Fn(GridNode) -> u64,
    FS: Fn(GridNode) -> bool,
{
    &&& node_callable(successors, heuristic, success, start)
    &&& forall|n: GridNode, ret: Vec<(GridNode, u64)>|
        #[trigger] call_ensures(successors, (n,), ret) ==> forall|i: int|
            0 <= i < ret@.len() ==> node_callable(
                successors,
                heuristic,
                success,
                (#[trigger] ret@[i]).0,
            )
}

/// Largest edge cost or heuristic value the search wrapper admits.
/// Accumulated costs are sums of reported edge costs along a chain of
/// parent links over distinct nodes, so a sum can only approach `u64`
/// range on a chain whose bookkeeping alone would need tens of
/// terabytes of memory; this cap keeps every partial sum the search can
/// actually form well inside `u64`.
pub const COST_LIMIT: u64 = 16_777_216;

/// Every edge cost a successor call can report, and every heuristic
/// value, stays within [`COST_LIMIT`].
pub open spec fn callbacks_bounded<FN, FH>(successors: FN, heuristic: FH) -> bool where
    FN: Fn(GridNode) -> Vec<(GridNode, u64)>,
    FH: Fn(GridNode) -> u64,
{
    &&& forall|n: GridNode, ret: Vec<(GridNode, u64)>|
        #[trigger] call_ensures(successors, (n,), ret) ==> forall|i: int|
            0 <= i < ret@.len() ==> (#[trigger] ret@[i]).1 <= COST_LIMIT
    &&& forall|n: GridNode, h: u64| #[trigger] call_ensures(heuristic, (n,), h) ==> h <= COST_LIMIT
}

/// The callbacks' specifications are functional: any two results of a
/// call on the same node are equal.  The search may query a node more
/// than once, and its bookkeeping is only coherent when repeated calls
/// cannot answer differently; a functional goal test also lets a
/// fruitless search certify that no admissible path exists at all.
pub open spec fn callbacks_functional<FN, FH, FS>(
    successors: FN,
    heuristic: FH,
    success: FS,
) -> bool where
    FN: Fn(GridNode) -> Vec<(GridNode, u64)>,
    FH: Fn(GridNode) -> u64,
    FS: Fn(GridNode) -> bool,
{
    &&& forall|n: GridNode, r1: Vec<(GridNode, u64)>, r2: Vec<(GridNode, u64)>|
        #![trigger call_ensures(successors, (n,), r1), call_ensures(successors, (n,), r2)]
        call_ensures(successors, (n,), r1) && call_ensures(successors, (n,), r2) ==> r1@ == r2@
    &&& forall|n: GridNode, h1: u64, h2: u64|
        #![trigger call_ensures(heuristic, (n,), h1), call_ensures(heuristic, (n,), h2)]
        call_ensures(heuristic, (n,), h1) && call_ensures(heuristic, (n,), h2) ==> h1 == h2
    &&& forall|n: GridNode, b1: bool, b2: bool|
        #![trigger call_ensures(success, (n,), b1), call_ensures(success, (n,), b2)]
        call_ensures(success, (n,), b1) && call_ensures(success, (n,), b2) ==> b1 == b2
}

/// A certificate that a search ran out of new nodes without reaching a
/// goal: a set of nodes containing the start, on each of which the
/// goal test answered `false`, and each of which was expanded by a
/// successor call whose every reported node lies in the set again.
pub open spec fn exhausted_search_space<FN, FS>(
    successors: FN,
    success: FS,
    start: GridNode,
    seen: Set<GridNode>,
) -> bool where
    FN: Fn(GridNode) -> Vec<(GridNode, u64)>,
    FS: Fn(GridNode) -> bool,
{
    &&& seen.contains(start)
    &&& forall|n: GridNode| #[trigger] seen.contains(n) ==> call_ensures(success, (n,), false)
    &&& forall|n: GridNode|
        #[trigger] seen.contains(n) ==> exists|ret: Vec<(GridNode, u64)>|
            #[trigger] call_ensures(successors, (n,), ret) && forall|i: int|
                0 <= i < ret@.len() ==> seen.contains((#[trigger] ret@[i]).0)
}

/// Some call of the successor callback on `prev` reported `next` as a
/// neighbor with edge cost `cost`.
pub open spec fn successor_reported<FN>(successors: FN, prev: GridNode, next: GridNode, cost: u64) -> bool where
    FN: Fn(GridNode) -> Vec<(GridNode, u64)>,
{
    exists|ret: Vec<(GridNode, u64)>|
        #[trigger] call_ensures(successors, (prev,), ret) && ret@.contains((next, cost))
}

/// What the external best-first search promises of a returned path: it
/// starts at `start`; every hop to the next node, with its cost, was
/// reported by some call of the successor callback on the previous
/// node; and the goal test accepted the final node, having rejected
/// every earlier one.
pub open spec fn is_search_path<FN, FS>(
    successors: FN,
    success: FS,
    start: GridNode,
    path: Seq<GridNode>,
    costs: Seq<u64>,
) -> bool where
    FN: Fn(GridNode) -> Vec<(GridNode, u64)>,
    FS: Fn(GridNode) -> bool,
{
    &&& path.len() >= 1
    &&& costs.len() == path.len() - 1
    &&& path[0] == start
    &&& forall|i: int|
        0 <= i < costs.len() ==> #[trigger] successor_reported(
            successors,
            path[i],
            path[i + 1],
            costs[i],
        )
    &&& call_ensures(success, (path[path.len() - 1],), true)
    &&& forall|i: int|
        0 <= i < path.len() - 1 ==> call_ensures(success, (#[trigger] path[i],), false)
}

/// Relies on `pathfinding::directed::astar::astar`: best-first search
/// from `start`, expanding nodes reported by `successors` in order of
/// accumulated cost plus `heuristic`, until `success` accepts a node.
/// It returns `None`, or a path from `start` to an accepted node
/// together with the sum of the edge costs the successor callback
/// reported along that path.  The node type is finite and costs are
/// non-negative, so the search terminates.  The bound on edge costs and
/// heuristic values keeps the search's `u64` cost sums from
/// overflowing: a sum can only leave `u64` along an acyclic parent
/// chain of more than `2^40` distinct nodes, whose map entries alone
/// (over 32 bytes each) would exceed `2^45` bytes of memory.  The
/// functional-specification requirement rules out callbacks that
/// answer differently on repeated calls for one node, under which the
/// search's lazy heap deletion could return a stale cost.  On `None`
/// the search has drained its frontier: every node it ever recorded
/// was goal-tested (answering `false`) and expanded by one successor
/// call whose reported nodes were all recorded in turn, so the
/// recorded set certifies that no reachable node was a goal.
#[verifier::external_body]
fn astar_search<FN, FH, FS>(start: GridNode, successors: &FN, heuristic: &FH, success: &FS) -> (r:
    Option<(Vec<GridNode>, u64)>) where
    FN: Fn(GridNode) -> Vec<(GridNode, u64)>,
    FH: Fn(GridNode) -> u64,
    FS: Fn(GridNode) -> bool,

    requires
        callbacks_callable(*successors, *heuristic, *success, start),
        callbacks_bounded(*successors, *heuristic),
        callbacks_functional(*successors, *heuristic, *success),
    ensures
        r matches Some((path, cost)) ==> exists|costs: Seq<u64>|
            is_search_path(*successors, *success, start, path@, costs) && cost == cost_sum(costs),
        r is None ==> exists|seen: Set<GridNode>|
            #[trigger] exhausted_search_space(*successors, *success, start, seen),
{
    astar(
        &start,
        |n: &GridNode| successors(*n),
        |n: &GridNode| heuristic(*n),
        |n: &GridNode| success(*n),
    )
}

/// Every node of a reported search path stays inside an exhaustion
/// certificate's set: the path starts there, and a functional
/// successor specification forces each hop to land where the
/// certificate's expansion of the previous node did.
proof fn lemma_search_path_stays_within<FN, FS>(
    successors: FN,
    success: FS,
    start: GridNode,
    seen: Set<GridNode>,
    dpath: Seq<GridNode>,
    costs: Seq<u64>,
    k: int,
) where
    FN: Fn(GridNode) -> Vec<(GridNode, u64)>,
    FS: Fn(GridNode) -> bool,

    requires
        forall|n: GridNode, r1: Vec<(GridNode, u64)>, r2: Vec<(GridNode, u64)>|
            #![trigger call_ensures(successors, (n,), r1), call_ensures(successors, (n,), r2)]
            call_ensures(successors, (n,), r1) && call_ensures(successors, (n,), r2) ==> r1@ == r2@,
        exhausted_search_space(successors, success, start, seen),
        is_search_path(successors, success, start, dpath, costs),
        0 <= k < dpath.len(),
    ensures
        seen.contains(dpath[k]),
    decreases k,
{
    if k > 0 {
        lemma_search_path_stays_within(successors, success, start, seen, dpath, costs, k - 1);
        let h: int = k - 1;
        assert(successor_reported(successors, dpath[h], dpath[h + 1], costs[h]));
        let rw = choose|rw: Vec<(GridNode, u64)>|
            call_ensures(successors, (dpath[h],), rw) && rw@.contains((dpath[h + 1], costs[h]));
        let jw = choose|jw: int| 0 <= jw < rw@.len() && rw@[jw] == (dpath[h + 1], costs[h]);
        let rc = choose|rc: Vec<(GridNode, u64)>|
            #[trigger] call_ensures(successors, (dpath[h],), rc) && forall|i: int|
                0 <= i < rc@.len() ==> seen.contains((#[trigger] rc@[i]).0);
        assert(rw@ == rc@);
        assert(seen.contains(rc@[jw].0));
    }
}

/// Run the external best-first search over the discrete grid: the
/// start coordinate is quantized once, the callbacks (already expressed
/// over grid nodes) are handed through unchanged, and the resulting
/// discrete path is dequantized back to continuous coordinates.  The
/// total cost is passed through exactly as the search accumulated it
/// from the successor callback's reported edge costs.  `None` comes
/// back only when no path the callbacks' specifications admit leads
/// from the quantized start to an accepted node.
pub fn quantized_astar<T: FiniteFloat, FN, FH, FS>(
    quantizer: &Quantizer3d<T>,
    start: (T, T, T),
    successors: FN,
    heuristic: FH,
    success: FS,
) -> (r: Option<(Vec<(T, T, T)>, u64)>) where
    FN: Fn(GridNode) -> Vec<(GridNode, u64)>,
    FH: Fn(GridNode) -> u64,
    FS: Fn(GridNode) -> bool,

    requires
        quantizer.wf3(),
        quantizer.can_quantize3(start),
        callbacks_callable(successors, heuristic, success, quantizer.spec_quantize3(start)),
        callbacks_bounded(successors, heuristic),
        callbacks_functional(successors, heuristic, success),
        quantizer.can_dequantize3(quantizer.spec_quantize3(start)),
        forall|n: GridNode, ret: Vec<(GridNode, u64)>|
            #[trigger] call_ensures(successors, (n,), ret) ==> forall|i: int|
                0 <= i < ret@.len() ==> quantizer.can_dequantize3((#[trigger] ret@[i]).0),
    ensures
        r matches Some((path, cost)) ==> exists|dpath: Seq<GridNode>, costs: Seq<u64>|
            {
                &&& is_search_path(
                    successors,
                    success,
                    quantizer.spec_quantize3(start),
                    dpath,
                    costs,
                )
                &&& cost == cost_sum(costs)
                &&& path@.len() == dpath.len()
                &&& forall|i: int|
                    0 <= i < dpath.len() ==> path@[i] == quantizer.spec_dequantize3(dpath[i])
            },
        r is None ==> forall|dpath: Seq<GridNode>, costs: Seq<u64>|
            !(#[trigger] is_search_path(
                successors,
                success,
                quantizer.spec_quantize3(start),
                dpath,
                costs,
            )),
{
    let start_n: GridNode = quantizer.quantize(start);
    let result = astar_search(start_n, &successors, &heuristic, &success);
    match result {
        None => {
            proof {
                let seen = choose|seen: Set<GridNode>|
                    #[trigger] exhausted_search_space(successors, success, start_n, seen);
                assert forall|dpath: Seq<GridNode>, costs: Seq<u64>|
                    !(#[trigger] is_search_path(
                        successors,
                        success,
                        start_n,
                        dpath,
                        costs,
                    )) by {
                    if is_search_path(successors, success, start_n, dpath, costs) {
                        let last: int = dpath.len() - 1;
                        lemma_search_path_stays_within(
                            successors,
                            success,
                            start_n,
                            seen,
                            dpath,
                            costs,
                            last,
                        );
                        assert(call_ensures(success, (dpath[last],), false));
                        assert(call_ensures(success, (dpath[last],), true));
                    }
                }
            }
            None
        },
        Some((dpath, cost)) => {
            let ghost costs = choose|costs: Seq<u64>|
                is_search_path(successors, success, start_n, dpath@, costs) && cost == cost_sum(
                    costs,
                );
            let mut paths_in_continuous: Vec<(T, T, T)> = Vec::new();
            let mut k: usize = 0;
            while k < dpath.len()
                invariant
                    quantizer.wf3(),
                    quantizer.can_dequantize3(start_n),
                    forall|n: GridNode, ret: Vec<(GridNode, u64)>|
                        #[trigger] call_ensures(successors, (n,), ret) ==> forall|i: int|
                            0 <= i < ret@.len() ==> quantizer.can_dequantize3(
                                (#[trigger] ret@[i]).0,
                            ),
                    is_search_path(successors, success, start_n, dpath@, costs),
                    k <= dpath.len(),
                    paths_in_continuous@.len() == k,
                    forall|i: int|
                        0 <= i < k ==> paths_in_continuous@[i] == quantizer.spec_dequantize3(
                            dpath@[i],
                        ),
                decreases dpath.len() - k,
            {
                proof {
                    if k == 0 {
                        assert(dpath@[0] == start_n);
                    } else {
                        let h: int = (k - 1) as int;
                        assert(successor_reported(successors, dpath@[h], dpath@[h + 1], costs[h]));
                        assert(dpath@[h + 1] == dpath@[k as int]);
                        let ret = choose|ret: Vec<(GridNode, u64)>|
                            call_ensures(successors, (dpath@[h],), ret) && ret@.contains(
                                (dpath@[h + 1], costs[h]),
                            );
                        let j = choose|j: int|
                            0 <= j < ret@.len() && ret@[j] == (dpath@[h + 1], costs[h]);
                        assert(quantizer.can_dequantize3(ret@[j].0));
                    }
                    assert(quantizer.can_dequantize3(dpath@[k as int]));
                }
                let node = dpath[k];
                paths_in_continuous.push(quantizer.dequantize(node));
                k += 1;
            }
            Some((paths_in_continuous, cost))
        },
    }
}

/// Some call of the continuous successor callback on the dequantized
/// image of `prev` reported a neighbor that quantizes to `next`, with
/// edge cost `cost`.
pub open spec fn successor_reported_c<T: FiniteFloat, FN>(
    quantizer: Quantizer3d<T>,
    successors: FN,
    prev: GridNode,
    next: GridNode,
    cost: u64,
) -> bool where FN: Fn((T, T, T)) -> Vec<((T, T, T), u64)> {
    exists|uret: Vec<((T, T, T), u64)>, j: int|
        {
            &&& #[trigger] call_ensures(successors, (quantizer.spec_dequantize3(prev),), uret)
            &&& 0 <= j < uret@.len()
            &&& quantizer.spec_quantize3((#[trigger] uret@[j]).0) == next
            &&& uret@[j].1 == cost
        }
}

/// What holds of a discrete path found through wrapped continuous
/// callbacks: it starts at `start`; every hop, with its cost, came from
/// the continuous successor callback applied to the dequantized image
/// of the previous node, requantized; and the continuous goal test
/// accepted the dequantized final node, having rejected every earlier
/// one.
pub open spec fn is_continuous_search_path<T: FiniteFloat, FN, FS>(
    quantizer: Quantizer3d<T>,
    successors: FN,
    success: FS,
    start: GridNode,
    path: Seq<GridNode>,
    costs: Seq<u64>,
) -> bool where
    FN: Fn((T, T, T)) -> Vec<((T, T, T), u64)>,
    FS: Fn((T, T, T)) -> bool,
{
    &&& path.len() >= 1
    &&& costs.len() == path.len() - 1
    &&& path[0] == start
    &&& forall|i: int|
        0 <= i < costs.len() ==> #[trigger] successor_reported_c(
            quantizer,
            successors,
            path[i],
            path[i + 1],
            costs[i],
        )
    &&& call_ensures(success, (quantizer.spec_dequantize3(path[path.len() - 1]),), true)
    &&& forall|i: int|
        0 <= i < path.len() - 1 ==> call_ensures(
            success,
            (quantizer.spec_dequantize3(#[trigger] path[i]),),
            false,
        )
}

/// The continuous callbacks accept every coordinate the grid can
/// produce: each is callable on the dequantized image of any
/// dequantizable node.
pub open spec fn continuous_callbacks_callable<T: FiniteFloat, FN, FH, FS>(
    quantizer: Quantizer3d<T>,
    successors: FN,
    heuristic: FH,
    success: FS,
) -> bool where
    FN: Fn((T, T, T)) -> Vec<((T, T, T), u64)>,
    FH: Fn((T, T, T)) -> u64,
    FS: Fn((T, T, T)) -> bool,
{
    forall|n: GridNode|
        quantizer.can_dequantize3(n) ==> {
            let c = #[trigger] quantizer.spec_dequantize3(n);
            &&& call_requires(successors, (c,))
            &&& call_requires(heuristic, (c,))
            &&& call_requires(success, (c,))
        }
}

/// Every neighbor the continuous successor callback can report fits on
/// the grid: it can be quantized, and the resulting node dequantized.
pub open spec fn continuous_successors_on_grid<T: FiniteFloat, FN>(
    quantizer: Quantizer3d<T>,
    successors: FN,
) -> bool where FN: Fn((T, T, T)) -> Vec<((T, T, T), u64)> {
    forall|c: (T, T, T), uret: Vec<((T, T, T), u64)>|
        #[trigger] call_ensures(successors, (c,), uret) ==> forall|i: int|
            0 <= i < uret@.len() ==> {
                let pos = (#[trigger] uret@[i]).0;
                &&& quantizer.can_quantize3(pos)
                &&& quantizer.can_dequantize3(quantizer.spec_quantize3(pos))
            }
}

/// Every edge cost the continuous successor callback can report, and
/// every continuous heuristic value, stays within [`COST_LIMIT`].
pub open spec fn continuous_callbacks_bounded<T: FiniteFloat, FN, FH>(
    successors: FN,
    heuristic: FH,
) -> bool where
    FN: Fn((T, T, T)) -> Vec<((T, T, T), u64)>,
    FH: Fn((T, T, T)) -> u64,
{
    &&& forall|c: (T, T, T), uret: Vec<((T, T, T), u64)>|
        #[trigger] call_ensures(successors, (c,), uret) ==> forall|i: int|
            0 <= i < uret@.len() ==> (#[trigger] uret@[i]).1 <= COST_LIMIT
    &&& forall|c: (T, T, T), h: u64| #[trigger] call_ensures(heuristic, (c,), h) ==> h <= COST_LIMIT
}

/// The continuous callbacks' specifications are functional: any two
/// results of a call on the same coordinate are equal.
pub open spec fn continuous_callbacks_functional<T: FiniteFloat, FN, FH, FS>(
    successors: FN,
    heuristic: FH,
    success: FS,
) -> bool where
    FN: Fn((T, T, T)) -> Vec<((T, T, T), u64)>,
    FH: Fn((T, T, T)) -> u64,
    FS: Fn((T, T, T)) -> bool,
{
    &&& forall|c: (T, T, T), r1: Vec<((T, T, T), u64)>, r2: Vec<((T, T, T), u64)>|
        #![trigger call_ensures(successors, (c,), r1), call_ensures(successors, (c,), r2)]
        call_ensures(successors, (c,), r1) && call_ensures(successors, (c,), r2) ==> r1@ == r2@
    &&& forall|c: (T, T, T), h1: u64, h2: u64|
        #![trigger call_ensures(heuristic, (c,), h1), call_ensures(heuristic, (c,), h2)]
        call_ensures(heuristic, (c,), h1) && call_ensures(heuristic, (c,), h2) ==> h1 == h2
    &&& forall|c: (T, T, T), b1: bool, b2: bool|
        #![trigger call_ensures(success, (c,), b1), call_ensures(success, (c,), b2)]
        call_ensures(success, (c,), b1) && call_ensures(success, (c,), b2) ==> b1 == b2
}

/// The continuous form of the exhaustion certificate: a set of grid
/// nodes containing the start, on each of whose dequantized images the
/// continuous goal test answered `false`, and each of which some
/// continuous successor call expanded with every reported neighbor
/// quantizing back into the set.
pub open spec fn continuous_exhausted_search_space<T: FiniteFloat, FN, FS>(
    quantizer: Quantizer3d<T>,
    successors: FN,
    success: FS,
    start: GridNode,
    seen: Set<GridNode>,
) -> bool where
    FN: Fn((T, T, T)) -> Vec<((T, T, T), u64)>,
    FS: Fn((T, T, T)) -> bool,
{
    &&& seen.contains(start)
    &&& forall|n: GridNode|
        #[trigger] seen.contains(n) ==> call_ensures(
            success,
            (quantizer.spec_dequantize3(n),),
            false,
        )
    &&& forall|n: GridNode|
        #[trigger] seen.contains(n) ==> exists|uret: Vec<((T, T, T), u64)>|
            #[trigger] call_ensures(successors, (quantizer.spec_dequantize3(n),), uret)
                && forall|i: int|
                0 <= i < uret@.len() ==> seen.contains(
                    quantizer.spec_quantize3((#[trigger] uret@[i]).0),
                )
}

/// Every node of a continuous search path stays inside a continuous
/// exhaustion certificate's set: the path starts there, and a
/// functional continuous successor specification forces each hop to
/// land where the certificate's expansion of the previous node did.
proof fn lemma_continuous_path_stays_within<T: FiniteFloat, FN, FS>(
    quantizer: Quantizer3d<T>,
    successors: FN,
    success: FS,
    start: GridNode,
    seen: Set<GridNode>,
    dpath: Seq<GridNode>,
    costs: Seq<u64>,
    k: int,
) where
    FN: Fn((T, T, T)) -> Vec<((T, T, T), u64)>,
    FS: Fn((T, T, T)) -> bool,

    requires
        forall|c: (T, T, T), r1: Vec<((T, T, T), u64)>, r2: Vec<((T, T, T), u64)>|
            #![trigger call_ensures(successors, (c,), r1), call_ensures(successors, (c,), r2)]
            call_ensures(successors, (c,), r1) && call_ensures(successors, (c,), r2) ==> r1@ == r2@,
        continuous_exhausted_search_space(quantizer, successors, success, start, seen),
        is_continuous_search_path(quantizer, successors, success, start, dpath, costs),
        0 <= k < dpath.len(),
    ensures
        seen.contains(dpath[k]),
    decreases k,
{
    if k > 0 {
        lemma_continuous_path_stays_within(
            quantizer,
            successors,
            success,
            start,
            seen,
            dpath,
            costs,
            k - 1,
        );
        let h: int = k - 1;
        assert(successor_reported_c(quantizer, successors, dpath[h], dpath[h + 1], costs[h]));
        let (uw, jw) = choose|uw: Vec<((T, T, T), u64)>, jw: int|
            {
                &&& call_ensures(successors, (quantizer.spec_dequantize3(dpath[h]),), uw)
                &&& 0 <= jw < uw@.len()
                &&& quantizer.spec_quantize3(uw@[jw].0) == dpath[h + 1]
                &&& uw@[jw].1 == costs[h]
            };
        let uc = choose|uc: Vec<((T, T, T), u64)>|
            #[trigger] call_ensures(successors, (quantizer.spec_dequantize3(dpath[h]),), uc)
                && forall|i: int|
                0 <= i < uc@.len() ==> seen.contains(
                    quantizer.spec_quantize3((#[trigger] uc@[i]).0),
                );
        assert(uw@ == uc@);
        assert(seen.contains(quantizer.spec_quantize3(uc@[jw].0)));
    }
}

/// Run the external best-first search for a problem stated entirely in
/// continuous coordinates: the start is quantized once, each callback
/// is wrapped so that a grid node is dequantized before the caller's
/// continuous logic runs (and each reported neighbor requantized), and
/// the discrete path found is dequantized back.  The total cost is
/// passed through exactly as accumulated from the reported edge costs.
/// `None` comes back only when no path the continuous callbacks'
/// specifications admit leads from the quantized start to an accepted
/// node.
pub fn quantized_astar_auto<T: FiniteFloat, FN, FH, FS>(
    quantizer: &Quantizer3d<T>,
    start: (T, T, T),
    successors: FN,
    heuristic: FH,
    success: FS,
) -> (r: Option<(Vec<(T, T, T)>, u64)>) where
    FN: Fn((T, T, T)) -> Vec<((T, T, T), u64)>,
    FH: Fn((T, T, T)) -> u64,
    FS: Fn((T, T, T)) -> bool,

    requires
        quantizer.wf3(),
        quantizer.can_quantize3(start),
        quantizer.can_dequantize3(quantizer.spec_quantize3(start)),
        continuous_callbacks_callable(*quantizer, successors, heuristic, success),
        continuous_callbacks_bounded(successors, heuristic),
        continuous_callbacks_functional(successors, heuristic, success),
        continuous_successors_on_grid(*quantizer, successors),
    ensures
        r matches Some((path, cost)) ==> exists|dpath: Seq<GridNode>, costs: Seq<u64>|
            {
                &&& is_continuous_search_path(
                    *quantizer,
                    successors,
                    success,
                    quantizer.spec_quantize3(start),
                    dpath,
                    costs,
                )
                &&& cost == cost_sum(costs)
                &&& path@.len() == dpath.len()
                &&& forall|i: int|
                    0 <= i < dpath.len() ==> path@[i] == quantizer.spec_dequantize3(dpath[i])
            },
        r is None ==> forall|dpath: Seq<GridNode>, costs: Seq<u64>|
            !(#[trigger] is_continuous_search_path(
                *quantizer,
                successors,
                success,
                quantizer.spec_quantize3(start),
                dpath,
                costs,
            )),
{
    let ghost gq = *quantizer;
    let gsucc: Ghost<FN> = Ghost(successors);
    let gheur: Ghost<FH> = Ghost(heuristic);
    let gsuccess: Ghost<FS> = Ghost(success);
    let sref = &successors;
    let href = &heuristic;
    let fref = &success;
    let wrapped_successors = |n: GridNode| -> (out: Vec<(GridNode, u64)>)
        requires
            gq.can_dequantize3(n),
        ensures
            forall|i: int| 0 <= i < out@.len() ==> gq.can_dequantize3((#[trigger] out@[i]).0),
            exists|uret: Vec<((T, T, T), u64)>|
                {
                    &&& #[trigger] call_ensures(gsucc@, (gq.spec_dequantize3(n),), uret)
                    &&& out@.len() == uret@.len()
                    &&& forall|i: int|
                        0 <= i < uret@.len() ==> (#[trigger] out@[i]).0 == gq.spec_quantize3(
                            uret@[i].0,
                        ) && out@[i].1 == uret@[i].1
                },
        {
            let c = quantizer.dequantize(n);
            let ulist = (*sref)(c);
            let mut out: Vec<(GridNode, u64)> = Vec::new();
            let mut i: usize = 0;
            while i < ulist.len()
                invariant
                    gq == *quantizer,
                    gq.wf3(),
                    continuous_successors_on_grid(gq, gsucc@),
                    call_ensures(gsucc@, (gq.spec_dequantize3(n),), ulist),
                    i <= ulist.len(),
                    out@.len() == i,
                    forall|j: int|
                        0 <= j < i ==> (#[trigger] out@[j]).0 == gq.spec_quantize3(ulist@[j].0)
                            && out@[j].1 == ulist@[j].1,
                    forall|j: int|
                        0 <= j < i ==> gq.can_dequantize3((#[trigger] out@[j]).0),
                decreases ulist.len() - i,
            {
                let (pos, cost) = ulist[i];
                out.push((quantizer.quantize(pos), cost));
                i += 1;
            }
            out
        };
    let wrapped_heuristic = |n: GridNode| -> (h: u64)
        requires
            gq.can_dequantize3(n),
        ensures
            call_ensures(gheur@, (gq.spec_dequantize3(n),), h),
        {
            (*href)(quantizer.dequantize(n))
        };
    let wrapped_success = |n: GridNode| -> (accepted: bool)
        requires
            gq.can_dequantize3(n),
        ensures
            call_ensures(gsuccess@, (gq.spec_dequantize3(n),), accepted),
        {
            (*fref)(quantizer.dequantize(n))
        };
    let start_n: GridNode = quantizer.quantize(start);
    proof {
        assert forall|n: GridNode, ret: Vec<(GridNode, u64)>|
            #[trigger] call_ensures(wrapped_successors, (n,), ret) implies forall|i: int|
            0 <= i < ret@.len() ==> node_callable(
                wrapped_successors,
                wrapped_heuristic,
                wrapped_success,
                (#[trigger] ret@[i]).0,
            ) by {
            assert forall|i: int| 0 <= i < ret@.len() implies node_callable(
                wrapped_successors,
                wrapped_heuristic,
                wrapped_success,
                (#[trigger] ret@[i]).0,
            ) by {
                assert(gq.can_dequantize3(ret@[i].0));
            }
        }
        // The wrapped successor lists stay within the cost bound: each
        // reported cost is one the continuous callback reported.
        assert forall|n: GridNode, ret: Vec<(GridNode, u64)>|
            #[trigger] call_ensures(wrapped_successors, (n,), ret) implies forall|i: int|
            0 <= i < ret@.len() ==> (#[trigger] ret@[i]).1 <= COST_LIMIT by {
            let uret = choose|uret: Vec<((T, T, T), u64)>|
                {
                    &&& #[trigger] call_ensures(successors, (gq.spec_dequantize3(n),), uret)
                    &&& ret@.len() == uret@.len()
                    &&& forall|j: int|
                        0 <= j < uret@.len() ==> (#[trigger] ret@[j]).0 == gq.spec_quantize3(
                            uret@[j].0,
                        ) && ret@[j].1 == uret@[j].1
                };
            assert forall|i: int| 0 <= i < ret@.len() implies (#[trigger] ret@[i]).1
                <= COST_LIMIT by {
                assert(uret@[i].1 <= COST_LIMIT);
            }
        }
        // The wrapped successors inherit a functional specification from
        // the continuous callback's.
        assert forall|n: GridNode, r1: Vec<(GridNode, u64)>, r2: Vec<(GridNode, u64)>|
            call_ensures(wrapped_successors, (n,), r1) && call_ensures(
                wrapped_successors,
                (n,),
                r2,
            ) implies r1@ == r2@ by {
            let u1 = choose|u1: Vec<((T, T, T), u64)>|
                {
                    &&& #[trigger] call_ensures(successors, (gq.spec_dequantize3(n),), u1)
                    &&& r1@.len() == u1@.len()
                    &&& forall|j: int|
                        0 <= j < u1@.len() ==> (#[trigger] r1@[j]).0 == gq.spec_quantize3(u1@[j].0)
                            && r1@[j].1 == u1@[j].1
                };
            let u2 = choose|u2: Vec<((T, T, T), u64)>|
                {
                    &&& #[trigger] call_ensures(successors, (gq.spec_dequantize3(n),), u2)
                    &&& r2@.len() == u2@.len()
                    &&& forall|j: int|
                        0 <= j < u2@.len() ==> (#[trigger] r2@[j]).0 == gq.spec_quantize3(u2@[j].0)
                            && r2@[j].1 == u2@[j].1
                };
            assert(u1@ == u2@);
            assert forall|j: int| 0 <= j < r1@.len() implies r1@[j] == r2@[j] by {
                assert(r1@[j].0 == gq.spec_quantize3(u1@[j].0) && r1@[j].1 == u1@[j].1);
                assert(r2@[j].0 == gq.spec_quantize3(u2@[j].0) && r2@[j].1 == u2@[j].1);
            }
            assert(r1@ =~= r2@);
        }
        // The wrapped goal test inherits a functional specification from
        // the continuous one: each admitted answer is an admitted answer
        // of the continuous test on the dequantized node.
        assert forall|n: GridNode, b1: bool, b2: bool|
            call_ensures(wrapped_success, (n,), b1) && call_ensures(
                wrapped_success,
                (n,),
                b2,
            ) implies b1 == b2 by {
            assert(call_ensures(success, (gq.spec_dequantize3(n),), b1));
            assert(call_ensures(success, (gq.spec_dequantize3(n),), b2));
        }
        assert(callbacks_bounded(wrapped_successors, wrapped_heuristic));
        assert(callbacks_functional(wrapped_successors, wrapped_heuristic, wrapped_success));
    }
    let result = astar_search(start_n, &wrapped_successors, &wrapped_heuristic, &wrapped_success);
    match result {
        None => {
            proof {
                let seen = choose|seen: Set<GridNode>|
                    #[trigger] exhausted_search_space(
                        wrapped_successors,
                        wrapped_success,
                        start_n,
                        seen,
                    );
                // Translate the wrapped certificate into one over the
                // continuous callbacks.
                assert forall|n: GridNode| #[trigger] seen.contains(n) implies call_ensures(
                    success,
                    (gq.spec_dequantize3(n),),
                    false,
                ) by {
                    assert(call_ensures(wrapped_success, (n,), false));
                }
                assert forall|n: GridNode| #[trigger] seen.contains(n) implies exists|
                    uret: Vec<((T, T, T), u64)>,
                |
                    #[trigger] call_ensures(successors, (gq.spec_dequantize3(n),), uret)
                        && forall|i: int|
                        0 <= i < uret@.len() ==> seen.contains(
                            gq.spec_quantize3((#[trigger] uret@[i]).0),
                        ) by {
                    let ret = choose|ret: Vec<(GridNode, u64)>|
                        #[trigger] call_ensures(wrapped_successors, (n,), ret) && forall|i: int|
                            0 <= i < ret@.len() ==> seen.contains((#[trigger] ret@[i]).0);
                    let uret = choose|uret: Vec<((T, T, T), u64)>|
                        {
                            &&& #[trigger] call_ensures(successors, (gq.spec_dequantize3(n),), uret)
                            &&& ret@.len() == uret@.len()
                            &&& forall|j: int|
                                0 <= j < uret@.len() ==> (#[trigger] ret@[j]).0
                                    == gq.spec_quantize3(uret@[j].0) && ret@[j].1 == uret@[j].1
                        };
                    assert forall|i: int| 0 <= i < uret@.len() implies seen.contains(
                        gq.spec_quantize3((#[trigger] uret@[i]).0),
                    ) by {
                        assert(ret@[i].0 == gq.spec_quantize3(uret@[i].0));
                        assert(seen.contains(ret@[i].0));
                    }
                    assert(call_ensures(successors, (gq.spec_dequantize3(n),), uret) && forall|
                        i: int,
                    |
                        0 <= i < uret@.len() ==> seen.contains(
                            gq.spec_quantize3((#[trigger] uret@[i]).0),
                        ));
                }
                assert(continuous_exhausted_search_space(gq, successors, success, start_n, seen));
                assert forall|dpath: Seq<GridNode>, costs: Seq<u64>|
                    !(#[trigger] is_continuous_search_path(
                        gq,
                        successors,
                        success,
                        start_n,
                        dpath,
                        costs,
                    )) by {
                    if is_continuous_search_path(gq, successors, success, start_n, dpath, costs) {
                        let last: int = dpath.len() - 1;
                        lemma_continuous_path_stays_within(
                            gq,
                            successors,
                            success,
                            start_n,
                            seen,
                            dpath,
                            costs,
                            last,
                        );
                        assert(call_ensures(success, (gq.spec_dequantize3(dpath[last]),), false));
                        assert(call_ensures(success, (gq.spec_dequantize3(dpath[last]),), true));
                    }
                }
            }
            None
        },
        Some((dpath, cost)) => {
            let ghost costs = choose|costs: Seq<u64>|
                is_search_path(wrapped_successors, wrapped_success, start_n, dpath@, costs)
                    && cost == cost_sum(costs);
            let mut paths_in_continuous: Vec<(T, T, T)> = Vec::new();
            let mut k: usize = 0;
            while k < dpath.len()
                invariant
                    gq == *quantizer,
                    gq.wf3(),
                    gq.can_dequantize3(start_n),
                    start_n == gq.spec_quantize3(start),
                    is_search_path(wrapped_successors, wrapped_success, start_n, dpath@, costs),
                    forall|n: GridNode, ret: Vec<(GridNode, u64)>|
                        #[trigger] call_ensures(wrapped_successors, (n,), ret) ==> forall|i: int|
                            0 <= i < ret@.len() ==> gq.can_dequantize3((#[trigger] ret@[i]).0),
                    cost == cost_sum(costs),
                    k <= dpath.len(),
                    paths_in_continuous@.len() == k,
                    forall|i: int|
                        0 <= i < k ==> paths_in_continuous@[i] == gq.spec_dequantize3(dpath@[i]),
                decreases dpath.len() - k,
            {
                proof {
                    if k == 0 {
                        assert(dpath@[0] == start_n);
                    } else {
                        let h: int = (k - 1) as int;
                        assert(successor_reported(
                            wrapped_successors,
                            dpath@[h],
                            dpath@[h + 1],
                            costs[h],
                        ));
                        let ret = choose|ret: Vec<(GridNode, u64)>|
                            call_ensures(wrapped_successors, (dpath@[h],), ret) && ret@.contains(
                                (dpath@[h + 1], costs[h]),
                            );
                        let j = choose|j: int|
                            0 <= j < ret@.len() && ret@[j] == (dpath@[h + 1], costs[h]);
                        assert(gq.can_dequantize3(ret@[j].0));
                    }
                    assert(gq.can_dequantize3(dpath@[k as int]));
                }
                let node = dpath[k];
                paths_in_continuous.push(quantizer.dequantize(node));
                k += 1;
            }
            proof {
                assert forall|i: int| 0 <= i < costs.len() implies #[trigger] successor_reported_c(
                    gq,
                    successors,
                    dpath@[i],
                    dpath@[i + 1],
                    costs[i],
                ) by {
                    assert(successor_reported(wrapped_successors, dpath@[i], dpath@[i + 1], costs[i]));
                    let ret = choose|ret: Vec<(GridNode, u64)>|
                        call_ensures(wrapped_successors, (dpath@[i],), ret) && ret@.contains(
                            (dpath@[i + 1], costs[i]),
                        );
                    let uret = choose|uret: Vec<((T, T, T), u64)>|
                        {
                            &&& #[trigger] call_ensures(successors, (gq.spec_dequantize3(dpath@[i]),), uret)
                            &&& ret@.len() == uret@.len()
                            &&& forall|j: int|
                                0 <= j < uret@.len() ==> (#[trigger] ret@[j]).0
                                    == gq.spec_quantize3(uret@[j].0) && ret@[j].1 == uret@[j].1
                        };
                    let j = choose|j: int|
                        0 <= j < ret@.len() && ret@[j] == (dpath@[i + 1], costs[i]);
                    assert(gq.spec_quantize3(uret@[j].0) == dpath@[i + 1]);
                    assert(uret@[j].1 == costs[i]);
                }
                let last: int = dpath@.len() - 1;
                assert(call_ensures(wrapped_success, (dpath@[last],), true));
                assert forall|i: int| 0 <= i < dpath@.len() - 1 implies call_ensures(
                    success,
                    (gq.spec_dequantize3(#[trigger] dpath@[i]),),
                    false,
                ) by {
                    assert(call_ensures(wrapped_success, (dpath@[i],), false));
                }
                assert(is_continuous_search_path(
                    gq,
                    successors,
                    success,
                    gq.spec_quantize3(start),
                    dpath@,
                    costs,
                ));
            }
            Some((paths_in_continuous, cost))
        },
    }
}

} // verus!
