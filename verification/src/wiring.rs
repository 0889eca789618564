//! The wiring of the network: which neuron is connected to which, and in what
//! order the connections are declared.

use vstd::prelude::*;

verus! {

/// The connections that leave neuron `pre` for the neurons below `upto`, in
/// ascending order of the receiving neuron. A neuron is not connected to
/// itself.
pub open spec fn fan(pre: int, upto: nat) -> Seq<(int, int)>
    decreases upto,
{
    if upto == 0 {
        Seq::empty()
    } else if upto - 1 == pre {
        fan(pre, (upto - 1) as nat)
    } else {
        fan(pre, (upto - 1) as nat).push((pre, upto - 1))
    }
}

/// The connections that leave the first `rows` neurons of a population of
/// `n`, the sending neurons in ascending order.
pub open spec fn wiring(n: nat, rows: nat) -> Seq<(int, int)>
    decreases rows,
{
    if rows == 0 {
        Seq::empty()
    } else {
        wiring(n, (rows - 1) as nat) + fan(rows - 1, n)
    }
}

/// The connections of a fully connected population of `n` neurons, as pairs
/// of sending and receiving neuron, in the order of their declaration.
pub open spec fn connections(n: nat) -> Seq<(int, int)> {
    wiring(n, n)
}

/// The place of the connection from `pre` to `post` among the connections of
/// a population of `n`.
pub open spec fn connection_index(n: nat, pre: int, post: int) -> int {
    pre * (n - 1) + if post < pre {
        post
    } else {
        post - 1
    }
}

/// `x` comes before `y` in declaration order: by sending neuron first, by
/// receiving neuron second.
pub open spec fn declared_before(x: (int, int), y: (int, int)) -> bool {
    x.0 < y.0 || (x.0 == y.0 && x.1 < y.1)
}

proof fn lemma_fan(pre: int, upto: nat)
    requires
        0 <= pre,
    ensures
        fan(pre, upto).len() == if pre < upto {
            upto - 1
        } else {
            upto as int
        },
        forall|k: int|
            0 <= k < fan(pre, upto).len() ==> #[trigger] fan(pre, upto)[k] == (
                pre,
                if k < pre {
                    k
                } else {
                    k + 1
                },
            ),
    decreases upto,
{
    if upto > 0 {
        lemma_fan(pre, (upto - 1) as nat);
    }
}

proof fn lemma_wiring(n: nat, rows: nat)
    requires
        rows <= n,
    ensures
        wiring(n, rows).len() == rows * (n - 1),
        forall|pre: int, post: int|
            0 <= pre < rows && 0 <= post < n && pre != post ==> {
                &&& 0 <= #[trigger] connection_index(n, pre, post) < wiring(n, rows).len()
                &&& wiring(n, rows)[connection_index(n, pre, post)] == (pre, post)
            },
        forall|i: int|
            0 <= i < wiring(n, rows).len() ==> {
                &&& 0 <= (#[trigger] wiring(n, rows)[i]).0 < rows
                &&& 0 <= wiring(n, rows)[i].1 < n
                &&& wiring(n, rows)[i].0 != wiring(n, rows)[i].1
            },
        forall|i: int, j: int|
            0 <= i < j < wiring(n, rows).len() ==> declared_before(
                #[trigger] wiring(n, rows)[i],
                #[trigger] wiring(n, rows)[j],
            ),
    decreases rows,
{
    if rows > 0 {
        let below = wiring(n, (rows - 1) as nat);
        let last = fan(rows - 1, n);
        lemma_wiring(n, (rows - 1) as nat);
        lemma_fan(rows - 1, n);
        assert(rows * (n - 1) == (rows - 1) * (n - 1) + (n - 1)) by (nonlinear_arith);
        assert(below.len() == (rows - 1) * (n - 1));
        assert(last.len() == n - 1);
        assert forall|pre: int, post: int|
            0 <= pre < rows && 0 <= post < n && pre != post implies {
            &&& 0 <= #[trigger] connection_index(n, pre, post) < wiring(n, rows).len()
            &&& wiring(n, rows)[connection_index(n, pre, post)] == (pre, post)
        } by {
            let k = if post < pre {
                post
            } else {
                post - 1
            };
            if pre < rows - 1 {
                assert(0 <= pre * (n - 1) + k < (rows - 1) * (n - 1)) by (nonlinear_arith)
                    requires
                        0 <= pre < rows - 1,
                        0 <= k < n - 1,
                ;
                assert(below[connection_index(n, pre, post)] == (pre, post));
            } else {
                assert(connection_index(n, pre, post) == below.len() + k);
                assert(wiring(n, rows)[below.len() + k] == last[k]);
            }
        }
        assert forall|i: int| 0 <= i < wiring(n, rows).len() implies {
            &&& 0 <= (#[trigger] wiring(n, rows)[i]).0 < rows
            &&& 0 <= wiring(n, rows)[i].1 < n
            &&& wiring(n, rows)[i].0 != wiring(n, rows)[i].1
        } by {
            if i >= below.len() {
                assert(wiring(n, rows)[i] == last[i - below.len()]);
            } else {
                assert(wiring(n, rows)[i] == below[i]);
            }
        }
        assert forall|i: int, j: int| 0 <= i < j < wiring(n, rows).len() implies declared_before(
            #[trigger] wiring(n, rows)[i],
            #[trigger] wiring(n, rows)[j],
        ) by {
            if j < below.len() {
                assert(wiring(n, rows)[i] == below[i]);
                assert(wiring(n, rows)[j] == below[j]);
            } else if i < below.len() {
                assert(wiring(n, rows)[i] == below[i]);
                assert(wiring(n, rows)[j] == last[j - below.len()]);
            } else {
                assert(wiring(n, rows)[i] == last[i - below.len()]);
                assert(wiring(n, rows)[j] == last[j - below.len()]);
            }
        }
    } else {
        assert(rows * (n - 1) == 0) by (nonlinear_arith)
            requires
                rows == 0,
        ;
    }
}

/// A population of `n` neurons has `n * (n - 1)` connections.
pub proof fn law_connections_count(n: nat)
    ensures
        connections(n).len() == n * (n - 1),
{
    lemma_wiring(n, n);
}

/// Every connection joins two different neurons of the population: there is
/// no connection from a neuron to itself.
pub proof fn law_connections_join_two_neurons(n: nat, i: int)
    requires
        0 <= i < connections(n).len(),
    ensures
        0 <= connections(n)[i].0 < n,
        0 <= connections(n)[i].1 < n,
        connections(n)[i].0 != connections(n)[i].1,
{
    lemma_wiring(n, n);
}

/// Every ordered pair of different neurons is connected, and its connection
/// stands at the place that `connection_index` gives.
pub proof fn law_connections_complete(n: nat, pre: int, post: int)
    requires
        0 <= pre < n,
        0 <= post < n,
        pre != post,
    ensures
        0 <= connection_index(n, pre, post) < connections(n).len(),
        connections(n)[connection_index(n, pre, post)] == (pre, post),
{
    lemma_wiring(n, n);
}

/// The connections are declared in ascending order, by sending neuron first
/// and by receiving neuron second. So no pair of neurons is connected twice.
pub proof fn law_connections_in_order(n: nat, i: int, j: int)
    requires
        0 <= i < j < connections(n).len(),
    ensures
        declared_before(connections(n)[i], connections(n)[j]),
        connections(n)[i] != connections(n)[j],
{
    lemma_wiring(n, n);
}

} // verus!
