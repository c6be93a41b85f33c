//! Questions about the tool calls a run made: was a tool called, with which arguments, how
//! often, and in which order.
use vstd::prelude::*;

use crate::harness::ToolCall;
use crate::json::{json_subset, json_subset_matches, Json};

verus! {

/// Some call in `calls` is to `tool`.
pub open spec fn called(calls: Seq<ToolCall>, tool: Seq<char>) -> bool {
    exists|i: int| 0 <= i < calls.len() && (#[trigger] calls[i]).name@ == tool
}

/// Some call to `tool` in `calls` has arguments that `args` is a subset of.
pub open spec fn called_with(calls: Seq<ToolCall>, tool: Seq<char>, args: Json) -> bool {
    exists|i: int|
        0 <= i < calls.len() && (#[trigger] calls[i]).name@ == tool && json_subset(
            args,
            calls[i].args,
        )
}

/// The number of calls to `tool` in `calls`.
pub open spec fn count_named(calls: Seq<ToolCall>, tool: Seq<char>) -> nat
    decreases calls.len(),
{
    if calls.len() == 0 {
        0
    } else {
        count_named(calls.drop_last(), tool) + if calls.last().name@ == tool {
            1nat
        } else {
            0nat
        }
    }
}

/// The names of the tools called, in call order.
pub open spec fn names(calls: Seq<ToolCall>) -> Seq<Seq<char>> {
    calls.map_values(|c: ToolCall| c.name@)
}

/// `idx` places each of `wanted` at a strictly later position of `names` holding that name.
pub open spec fn is_embedding(wanted: Seq<Seq<char>>, names: Seq<Seq<char>>, idx: Seq<int>) -> bool {
    &&& idx.len() == wanted.len()
    &&& forall|k: int|
        0 <= k < idx.len() ==> 0 <= #[trigger] idx[k] < names.len() && names[idx[k]] == wanted[k]
    &&& forall|k: int, l: int| 0 <= k < l < idx.len() ==> #[trigger] idx[k] < #[trigger] idx[l]
}

/// `wanted` is a subsequence of `names`: the wanted names appear in `names` in this relative
/// order, not necessarily next to each other.
pub open spec fn is_subsequence_of(wanted: Seq<Seq<char>>, names: Seq<Seq<char>>) -> bool {
    exists|idx: Seq<int>| is_embedding(wanted, names, idx)
}

/// Whether some call in `calls` is to `tool`.
pub fn any_call_to(calls: &Vec<ToolCall>, tool: &String) -> (r: bool)
    ensures
        r == called(calls@, tool@),
{
    let mut i: usize = 0;
    while i < calls.len()
        invariant
            i <= calls.len(),
            forall|m: int| 0 <= m < i ==> (#[trigger] calls@[m]).name@ != tool@,
        decreases calls.len() - i,
    {
        if calls[i].name == *tool {
            assert(calls@[i as int].name@ == tool@);
            return true;
        }
        i = i + 1;
    }
    false
}

/// Whether some call to `tool` has arguments that `args` is a subset of.
pub fn any_call_with(calls: &Vec<ToolCall>, tool: &String, args: &Json) -> (r: bool)
    ensures
        r == called_with(calls@, tool@, *args),
{
    let mut i: usize = 0;
    while i < calls.len()
        invariant
            i <= calls.len(),
            forall|m: int|
                0 <= m < i ==> !((#[trigger] calls@[m]).name@ == tool@ && json_subset(
                    *args,
                    calls@[m].args,
                )),
        decreases calls.len() - i,
    {
        if calls[i].name == *tool && json_subset_matches(args, &calls[i].args) {
            assert(calls@[i as int].name@ == tool@);
            return true;
        }
        i = i + 1;
    }
    false
}

/// The number of calls to `tool`.
pub fn count_calls_to(calls: &Vec<ToolCall>, tool: &String) -> (r: usize)
    ensures
        r == count_named(calls@, tool@),
{
    let mut n: usize = 0;
    let mut i: usize = 0;
    while i < calls.len()
        invariant
            i <= calls.len(),
            n <= i,
            n == count_named(calls@.take(i as int), tool@),
        decreases calls.len() - i,
    {
        assert(calls@.take(i + 1).drop_last() =~= calls@.take(i as int));
        if calls[i].name == *tool {
            n = n + 1;
        }
        i = i + 1;
    }
    assert(calls@.take(calls.len() as int) =~= calls@);
    n
}

/// `names` with positions before `p` dropped keep a later embedding: shifting an embedding of
/// a suffix back by `p`.
proof fn lemma_embedding_extend(
    wanted: Seq<Seq<char>>,
    names: Seq<Seq<char>>,
    idx: Seq<int>,
    p: int,
)
    requires
        is_embedding(wanted.take(idx.len() as int), names, idx),
        idx.len() < wanted.len(),
        0 <= p < names.len(),
        names[p] == wanted[idx.len() as int],
        forall|k: int| 0 <= k < idx.len() ==> #[trigger] idx[k] < p,
    ensures
        is_embedding(wanted.take(idx.len() as int + 1), names, idx.push(p)),
{
    let w = wanted.take(idx.len() as int + 1);
    let j = idx.push(p);
    assert forall|k: int| 0 <= k < j.len() implies 0 <= #[trigger] j[k] < names.len() && names[j[k]]
        == w[k] by {
        if k < idx.len() {
            assert(j[k] == idx[k]);
            assert(w[k] == wanted.take(idx.len() as int)[k]);
        }
    }
    assert forall|k: int, l: int| 0 <= k < l < j.len() implies #[trigger] j[k] < #[trigger] j[l] by {
        if l < idx.len() {
            assert(j[k] == idx[k] && j[l] == idx[l]);
        } else {
            assert(j[k] == idx[k]);
        }
    }
}

/// The first `c` positions of `other` all lie before `p`.
pub open spec fn all_before(other: Seq<int>, c: int, p: int) -> bool {
    forall|k: int| 0 <= k < c ==> #[trigger] other[k] < p
}

/// Are the names `tools` a subsequence of the names of `calls`? Scans the calls once, advancing
/// through `tools` at each call that names the next wanted tool. An empty `tools` holds.
pub fn tools_in_order(tools: &Vec<String>, calls: &Vec<ToolCall>) -> (r: bool)
    ensures
        r == is_subsequence_of(tools@.map_values(|t: String| t@), names(calls@)),
{
    let ghost wanted = tools@.map_values(|t: String| t@);
    let ghost nm = names(calls@);
    let mut m: usize = 0;
    let mut p: usize = 0;
    let ghost mut idx: Seq<int> = Seq::empty();
    assert forall|other: Seq<int>, c: int|
        #![trigger all_before(other, c, 0)]
        is_embedding(wanted, nm, other) && 0 <= c <= wanted.len() && all_before(
            other,
            c,
            0,
        ) implies c <= 0 by {
        if c > 0 {
            assert(other[0] < 0);
        }
    }
    while p < calls.len()
        invariant
            wanted == tools@.map_values(|t: String| t@),
            nm == names(calls@),
            nm.len() == calls.len(),
            wanted.len() == tools.len(),
            p <= calls.len(),
            m <= tools.len(),
            idx.len() == m,
            is_embedding(wanted.take(m as int), nm, idx),
            all_before(idx, m as int, p as int),
            // The scan is never behind: any embedding of the wanted names places at most `m`
            // of them before position `p`.
            forall|other: Seq<int>, c: int|
                #![trigger all_before(other, c, p as int)]
                is_embedding(wanted, nm, other) && 0 <= c <= wanted.len() && all_before(
                    other,
                    c,
                    p as int,
                ) ==> c <= m,
        decreases calls.len() - p,
    {
        let ghost old_m = m as int;
        let ghost pp = p as int;
        if m < tools.len() && calls[p].name == tools[m] {
            proof {
                assert(nm[pp] == calls@[pp].name@);
                assert(wanted[old_m] == tools@[old_m]@);
                assert(wanted.take(old_m + 1).take(old_m) =~= wanted.take(old_m));
                lemma_embedding_extend(wanted, nm, idx, pp);
                assert forall|other: Seq<int>, c: int|
                    #![trigger all_before(other, c, pp + 1)]
                    is_embedding(wanted, nm, other) && 0 <= c <= wanted.len() && all_before(
                        other,
                        c,
                        pp + 1,
                    ) implies c <= old_m + 1 by {
                    if c > old_m + 1 {
                        assert forall|k: int| 0 <= k < old_m + 1 implies #[trigger] other[k] < pp by {
                            assert(other[k] < other[old_m + 1]);
                        }
                        assert(all_before(other, old_m + 1, pp));
                    }
                }
                idx = idx.push(pp);
            }
            m = m + 1;
        } else {
            proof {
                assert forall|other: Seq<int>, c: int|
                    #![trigger all_before(other, c, pp + 1)]
                    is_embedding(wanted, nm, other) && 0 <= c <= wanted.len() && all_before(
                        other,
                        c,
                        pp + 1,
                    ) implies c <= old_m by {
                    if c > old_m {
                        assert(all_before(other, old_m, pp)) by {
                            assert forall|k: int| 0 <= k < old_m implies #[trigger] other[k] < pp by {
                                assert(other[k] < other[old_m]);
                            }
                        }
                        if other[old_m] < pp {
                            assert(all_before(other, old_m + 1, pp));
                        } else {
                            assert(other[old_m] == pp);
                            assert(nm[pp] == wanted[old_m]);
                            assert(nm[pp] == calls@[pp].name@);
                            assert(wanted[old_m] == tools@[old_m]@);
                        }
                    }
                }
            }
        }
        p = p + 1;
    }
    if m == tools.len() {
        assert(wanted.take(m as int) =~= wanted);
        true
    } else {
        proof {
            if is_subsequence_of(wanted, nm) {
                let other = choose|other: Seq<int>| is_embedding(wanted, nm, other);
                assert(all_before(other, wanted.len() as int, p as int));
            }
        }
        false
    }
}

/// Adding a call adds one to the count of its own tool and nothing to any other: the last call
/// counts like every other.
pub proof fn lemma_count_named_push(calls: Seq<ToolCall>, c: ToolCall, tool: Seq<char>)
    ensures
        count_named(calls.push(c), tool) == count_named(calls, tool) + if c.name@ == tool {
            1nat
        } else {
            0nat
        },
{
    assert(calls.push(c).drop_last() =~= calls);
}

/// The count of calls to a tool is the number of calls whose name is exactly that tool,
/// wherever they stand; a single call to the tool counts 1.
pub proof fn lemma_count_named_is_number_of_matching_calls(calls: Seq<ToolCall>, tool: Seq<char>)
    ensures
        count_named(calls, tool) == calls.filter(|c: ToolCall| c.name@ == tool).len(),
        count_named(calls, tool) <= calls.len(),
        calls.len() == 1 && calls[0].name@ == tool ==> count_named(calls, tool) == 1,
    decreases calls.len(),
{
    if calls.len() > 0 {
        let u = calls.drop_last();
        lemma_count_named_is_number_of_matching_calls(u, tool);
        assert(u.push(calls.last()) =~= calls);
        u.lemma_filter_push(calls.last(), |c: ToolCall| c.name@ == tool);
        if calls.len() == 1 {
            assert(u.len() == 0);
        }
    }
}

/// A tool was called exactly when a call carries that exact name: when the names of the calls
/// contain it, and when its count is positive. A call whose name merely contains the tool's
/// name does not count.
pub proof fn lemma_called_means_exact_name(calls: Seq<ToolCall>, tool: Seq<char>)
    ensures
        called(calls, tool) <==> names(calls).contains(tool),
        called(calls, tool) <==> count_named(calls, tool) > 0,
        (forall|i: int| 0 <= i < calls.len() ==> (#[trigger] calls[i]).name@ != tool) ==> !called(
            calls,
            tool,
        ),
    decreases calls.len(),
{
    let ns = names(calls);
    if called(calls, tool) {
        let i = choose|i: int| 0 <= i < calls.len() && (#[trigger] calls[i]).name@ == tool;
        assert(ns[i] == tool);
    }
    if ns.contains(tool) {
        let i = choose|i: int| 0 <= i < ns.len() && ns[i] == tool;
        assert(calls[i].name@ == tool);
    }
    if calls.len() > 0 {
        let u = calls.drop_last();
        lemma_called_means_exact_name(u, tool);
        if called(u, tool) {
            let i = choose|i: int| 0 <= i < u.len() && (#[trigger] u[i]).name@ == tool;
            assert(calls[i] == u[i]);
        }
        if called(calls, tool) && calls.last().name@ != tool {
            let i = choose|i: int| 0 <= i < calls.len() && (#[trigger] calls[i]).name@ == tool;
            assert(i < u.len());
            assert(u[i] == calls[i]);
        }
        if calls.last().name@ == tool {
            assert(calls[calls.len() - 1].name@ == tool);
        }
    }
}

} // verus!
