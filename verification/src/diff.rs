//! Reconciliation of child lists: the operations that turn the old children
//! of a node into the new ones, matched by key when every child has one and
//! by position otherwise.
use vstd::prelude::*;
use crate::vdom::{
    copy_node, key_of, lemma_models_len, model, models, NodeModel, VirtualNode,
};

verus! {

/// One reconciliation operation.
#[derive(Debug, PartialEq)]
pub enum DiffOp {
    /// Patch the child at `index` of the new list in place.
    Update { index: usize },
    /// Insert `node` at `index` of the new list.
    Insert { index: usize, node: VirtualNode },
    /// Remove the child at `index` of the old list.
    Remove { index: usize },
}

/// The model of an operation.
pub enum OpModel {
    Update(int),
    Insert(int, NodeModel),
    Remove(int),
}

/// The model of an operation: its index, and the model of an inserted node.
pub open spec fn op_model(op: DiffOp) -> OpModel {
    match op {
        DiffOp::Update { index } => OpModel::Update(index as int),
        DiffOp::Insert { index, node } => OpModel::Insert(index as int, model(node)),
        DiffOp::Remove { index } => OpModel::Remove(index as int),
    }
}

/// The models of a list of operations.
pub open spec fn ops_model(ops: Seq<DiffOp>) -> Seq<OpModel> {
    ops.map_values(|op: DiffOp| op_model(op))
}

/// The list is not empty and every node in it has a key.
pub open spec fn all_keyed(s: Seq<VirtualNode>) -> bool {
    s.len() > 0 && forall|i: int| 0 <= i < s.len() ==> (#[trigger] key_of(s[i])) is Some
}

/// Position-by-position reconciliation: update the common prefix, insert
/// the new tail in order, remove the old tail from its end.
pub open spec fn positional_ops(old: Seq<VirtualNode>, new: Seq<VirtualNode>) -> Seq<OpModel> {
    let m = if old.len() <= new.len() {
        old.len() as int
    } else {
        new.len() as int
    };
    Seq::new(m as nat, |i: int| OpModel::Update(i)) + Seq::new(
        (new.len() - m) as nat,
        |k: int| OpModel::Insert(m + k, model(new[m + k])),
    ) + Seq::new((old.len() - m) as nat, |k: int| OpModel::Remove(old.len() - 1 - k))
}

/// Some node of `s` has key `k` (`None` standing for "no key").
pub open spec fn has_key_in(s: Seq<VirtualNode>, k: Option<Seq<char>>) -> bool {
    exists|j: int| 0 <= j < s.len() && key_of(s[j]) == k
}

/// The operation for the new child at `i` under keyed reconciliation: an
/// update when an old child has its key, an insertion otherwise.
pub open spec fn keyed_entry(old: Seq<VirtualNode>, new: Seq<VirtualNode>, i: int) -> OpModel {
    if has_key_in(old, key_of(new[i])) {
        OpModel::Update(i)
    } else {
        OpModel::Insert(i, model(new[i]))
    }
}

/// The removals of keyed reconciliation among the first `j` old children:
/// those whose key no new child has, from the highest index down.
pub open spec fn keyed_removes(old: Seq<VirtualNode>, new: Seq<VirtualNode>, j: int) -> Seq<OpModel>
    decreases j,
{
    if j <= 0 {
        Seq::empty()
    } else {
        (if has_key_in(new, key_of(old[j - 1])) {
            Seq::empty()
        } else {
            seq![OpModel::Remove(j - 1)]
        }) + keyed_removes(old, new, j - 1)
    }
}

/// Key-by-key reconciliation: walking the new children in order, update
/// those whose key an old child has and insert the others; then remove the
/// old children whose key is gone, from the highest index down.
pub open spec fn keyed_ops(old: Seq<VirtualNode>, new: Seq<VirtualNode>) -> Seq<OpModel> {
    Seq::new(new.len(), |i: int| keyed_entry(old, new, i)) + keyed_removes(
        old,
        new,
        old.len() as int,
    )
}

/// Reconciliation as the renderer does it: by key when both lists are fully
/// keyed, by position otherwise.
pub open spec fn children_ops(old: Seq<VirtualNode>, new: Seq<VirtualNode>) -> Seq<OpModel> {
    if all_keyed(old) && all_keyed(new) {
        keyed_ops(old, new)
    } else {
        positional_ops(old, new)
    }
}

proof fn lemma_ops_model_push(ops: Seq<DiffOp>, op: DiffOp)
    ensures
        ops_model(ops.push(op)) == ops_model(ops).push(op_model(op)),
{
    assert(ops_model(ops.push(op)) =~= ops_model(ops).push(op_model(op)));
}

/// Whether `children` is non-empty and every child has a key.
pub fn all_have_keys(children: &[VirtualNode]) -> (r: bool)
    ensures
        r == all_keyed(children@),
{
    if children.len() == 0 {
        return false;
    }
    let mut i: usize = 0;
    while i < children.len()
        invariant
            i <= children@.len(),
            forall|k: int| 0 <= k < i ==> (#[trigger] key_of(children@[k])) is Some,
        decreases children@.len() - i,
    {
        if !children[i].has_key() {
            return false;
        }
        i = i + 1;
    }
    true
}

/// Whether `a` and `b` have the same key (or both have none).
fn same_key(a: &VirtualNode, b: &VirtualNode) -> (r: bool)
    ensures
        r == (key_of(*a) == key_of(*b)),
{
    let ka: Option<&String> = match a {
        VirtualNode::Element { key, .. } => key.as_ref(),
        _ => None,
    };
    let kb: Option<&String> = match b {
        VirtualNode::Element { key, .. } => key.as_ref(),
        _ => None,
    };
    match (ka, kb) {
        (Some(x), Some(y)) => *x == *y,
        (None, None) => true,
        _ => false,
    }
}

/// Whether some node of `nodes` has the key of `n`.
fn contains_key_of(nodes: &[VirtualNode], n: &VirtualNode) -> (r: bool)
    ensures
        r == has_key_in(nodes@, key_of(*n)),
{
    let mut j: usize = 0;
    while j < nodes.len()
        invariant
            j <= nodes@.len(),
            forall|k: int| 0 <= k < j ==> key_of(#[trigger] nodes@[k]) != key_of(*n),
        decreases nodes@.len() - j,
    {
        if same_key(&nodes[j], n) {
            return true;
        }
        j = j + 1;
    }
    false
}

/// Position-by-position reconciliation of `old` into `new`.
pub fn diff_positional(old: &[VirtualNode], new: &[VirtualNode]) -> (r: Vec<DiffOp>)
    ensures
        ops_model(r@) == positional_ops(old@, new@),
{
    let m: usize = if old.len() <= new.len() {
        old.len()
    } else {
        new.len()
    };
    let mut ops: Vec<DiffOp> = Vec::new();
    let mut i: usize = 0;
    while i < m
        invariant
            i <= m,
            m as int == (if old@.len() <= new@.len() { old@.len() as int } else { new@.len() as int }),
            ops_model(ops@) == Seq::new(i as nat, |t: int| OpModel::Update(t)),
        decreases m - i,
    {
        proof {
            lemma_ops_model_push(ops@, DiffOp::Update { index: i });
        }
        ops.push(DiffOp::Update { index: i });
        i = i + 1;
        assert(ops_model(ops@) =~= Seq::new(i as nat, |t: int| OpModel::Update(t)));
    }
    let ghost first = ops_model(ops@);
    let mut k: usize = m;
    while k < new.len()
        invariant
            m <= k <= new@.len(),
            m as int == (if old@.len() <= new@.len() { old@.len() as int } else { new@.len() as int }),
            ops_model(ops@) == first + Seq::new(
                (k - m) as nat,
                |t: int| OpModel::Insert(m + t, model(new@[m + t])),
            ),
        decreases new@.len() - k,
    {
        let node: VirtualNode = copy_node(&new[k]);
        proof {
            lemma_ops_model_push(ops@, DiffOp::Insert { index: k, node });
        }
        ops.push(DiffOp::Insert { index: k, node });
        k = k + 1;
        assert(ops_model(ops@) =~= first + Seq::new(
            (k - m) as nat,
            |t: int| OpModel::Insert(m + t, model(new@[m + t])),
        ));
    }
    let ghost second = ops_model(ops@);
    let mut j: usize = old.len();
    while j > m
        invariant
            m <= j <= old@.len(),
            ops_model(ops@) == second + Seq::new(
                (old@.len() - j) as nat,
                |t: int| OpModel::Remove(old@.len() - 1 - t),
            ),
        decreases j,
    {
        j = j - 1;
        proof {
            lemma_ops_model_push(ops@, DiffOp::Remove { index: j });
        }
        ops.push(DiffOp::Remove { index: j });
        assert(ops_model(ops@) =~= second + Seq::new(
            (old@.len() - j) as nat,
            |t: int| OpModel::Remove(old@.len() - 1 - t),
        ));
    }
    ops
}

/// Key-by-key reconciliation of `old` into `new`.
pub fn diff_keyed(old: &[VirtualNode], new: &[VirtualNode]) -> (r: Vec<DiffOp>)
    ensures
        ops_model(r@) == keyed_ops(old@, new@),
{
    let mut ops: Vec<DiffOp> = Vec::new();
    let mut i: usize = 0;
    while i < new.len()
        invariant
            i <= new@.len(),
            ops_model(ops@) == Seq::new(i as nat, |t: int| keyed_entry(old@, new@, t)),
        decreases new@.len() - i,
    {
        let op: DiffOp = if contains_key_of(old, &new[i]) {
            DiffOp::Update { index: i }
        } else {
            DiffOp::Insert { index: i, node: copy_node(&new[i]) }
        };
        proof {
            lemma_ops_model_push(ops@, op);
        }
        ops.push(op);
        i = i + 1;
        assert(ops_model(ops@) =~= Seq::new(i as nat, |t: int| keyed_entry(old@, new@, t)));
    }
    let mut j: usize = old.len();
    while j > 0
        invariant
            j <= old@.len(),
            ops_model(ops@) + keyed_removes(old@, new@, j as int) == keyed_ops(old@, new@),
        decreases j,
    {
        let ghost before = ops_model(ops@);
        j = j - 1;
        if !contains_key_of(new, &old[j]) {
            proof {
                lemma_ops_model_push(ops@, DiffOp::Remove { index: j });
            }
            ops.push(DiffOp::Remove { index: j });
            assert(ops_model(ops@) + keyed_removes(old@, new@, j as int) =~= before
                + keyed_removes(old@, new@, j + 1));
        } else {
            assert(ops_model(ops@) + keyed_removes(old@, new@, j as int) =~= before
                + keyed_removes(old@, new@, j + 1));
        }
    }
    assert(ops_model(ops@) =~= ops_model(ops@) + keyed_removes(old@, new@, 0));
    ops
}

/// Reconciles `old` into `new`: by key when both lists are fully keyed, by
/// position otherwise.
pub fn diff_children(old: &[VirtualNode], new: &[VirtualNode]) -> (r: Vec<DiffOp>)
    ensures
        ops_model(r@) == children_ops(old@, new@),
{
    if all_have_keys(old) && all_have_keys(new) {
        diff_keyed(old, new)
    } else {
        diff_positional(old, new)
    }
}


// ---------------------------------------------------------------------
// Laws
// ---------------------------------------------------------------------

/// The operations that `Update { index: i }` for every `i` below `n` make.
pub open spec fn all_updates(n: nat) -> Seq<OpModel> {
    Seq::new(n, |i: int| OpModel::Update(i))
}

proof fn lemma_keyed_removes_none(s: Seq<VirtualNode>, j: int)
    requires
        j <= s.len(),
    ensures
        keyed_removes(s, s, j) == Seq::<OpModel>::empty(),
    decreases j,
{
    if j > 0 {
        assert(has_key_in(s, key_of(s[j - 1])));
        lemma_keyed_removes_none(s, j - 1);
        assert(keyed_removes(s, s, j) =~= Seq::<OpModel>::empty());
    }
}

/// Reconciling a list of children with itself, by key or by position,
/// patches every child in place and inserts or removes nothing.
pub proof fn law_diff_of_unchanged_children(s: Seq<VirtualNode>)
    ensures
        children_ops(s, s) == all_updates(s.len()),
        positional_ops(s, s) == all_updates(s.len()),
        keyed_ops(s, s) == all_updates(s.len()),
{
    assert(positional_ops(s, s) =~= all_updates(s.len()));
    lemma_keyed_removes_none(s, s.len() as int);
    assert forall|i: int| 0 <= i < s.len() implies keyed_entry(s, s, i) == OpModel::Update(i) by {
        assert(has_key_in(s, key_of(s[i])));
    }
    assert(keyed_ops(s, s) =~= all_updates(s.len()));
}

/// One operation applied to a list of node models: an update replaces the
/// node at its index by the new node there, an insertion inserts its node,
/// a removal removes the node at its index.
pub open spec fn apply_op(l: Seq<NodeModel>, new: Seq<NodeModel>, op: OpModel) -> Seq<NodeModel> {
    match op {
        OpModel::Update(i) => if 0 <= i < l.len() && i < new.len() {
            l.update(i, new[i])
        } else {
            l
        },
        OpModel::Insert(i, n) => if 0 <= i <= l.len() {
            l.insert(i, n)
        } else {
            l
        },
        OpModel::Remove(i) => if 0 <= i < l.len() {
            l.remove(i)
        } else {
            l
        },
    }
}

/// A list of operations applied in order.
pub open spec fn apply_ops(l: Seq<NodeModel>, new: Seq<NodeModel>, ops: Seq<OpModel>) -> Seq<
    NodeModel,
>
    decreases ops.len(),
{
    if ops.len() == 0 {
        l
    } else {
        apply_op(apply_ops(l, new, ops.drop_last()), new, ops.last())
    }
}

proof fn lemma_apply_ops_append(l: Seq<NodeModel>, new: Seq<NodeModel>, a: Seq<OpModel>, b: Seq<OpModel>)
    ensures
        apply_ops(l, new, a + b) == apply_ops(apply_ops(l, new, a), new, b),
    decreases b.len(),
{
    if b.len() > 0 {
        assert((a + b).drop_last() =~= a + b.drop_last());
        lemma_apply_ops_append(l, new, a, b.drop_last());
    } else {
        assert(a + b =~= a);
    }
}

proof fn lemma_updates(old: Seq<NodeModel>, new: Seq<NodeModel>, k: nat)
    requires
        k <= old.len(),
        k <= new.len(),
    ensures
        apply_ops(old, new, all_updates(k)) == new.subrange(0, k as int) + old.subrange(
            k as int,
            old.len() as int,
        ),
    decreases k,
{
    if k > 0 {
        assert(all_updates(k).drop_last() =~= all_updates((k - 1) as nat));
        lemma_updates(old, new, (k - 1) as nat);
        assert((new.subrange(0, k - 1) + old.subrange(k - 1, old.len() as int)).update(
            k - 1,
            new[k - 1],
        ) =~= new.subrange(0, k as int) + old.subrange(k as int, old.len() as int));
    } else {
        assert(old.subrange(0, old.len() as int) =~= old);
        assert(new.subrange(0, 0) + old =~= old);
    }
}

/// The insertions of the new tail.
pub open spec fn tail_inserts(new: Seq<NodeModel>, m: int, k: nat) -> Seq<OpModel> {
    Seq::new(k, |t: int| OpModel::Insert(m + t, new[m + t]))
}

proof fn lemma_inserts(new: Seq<NodeModel>, m: int, k: nat)
    requires
        0 <= m,
        m + k <= new.len(),
    ensures
        apply_ops(new.subrange(0, m), new, tail_inserts(new, m, k)) == new.subrange(0, m + k),
    decreases k,
{
    if k > 0 {
        assert(tail_inserts(new, m, k).drop_last() =~= tail_inserts(new, m, (k - 1) as nat));
        lemma_inserts(new, m, (k - 1) as nat);
        assert(new.subrange(0, m + k - 1).insert(m + k - 1, new[m + k - 1]) =~= new.subrange(
            0,
            m + k,
        ));
    }
}

/// The removals of the old tail, from its end.
pub open spec fn tail_removes(n: int, k: nat) -> Seq<OpModel> {
    Seq::new(k, |t: int| OpModel::Remove(n - 1 - t))
}

proof fn lemma_removes(l: Seq<NodeModel>, new: Seq<NodeModel>, k: nat)
    requires
        k <= l.len(),
    ensures
        apply_ops(l, new, tail_removes(l.len() as int, k)) == l.subrange(0, l.len() - k),
    decreases k,
{
    if k > 0 {
        assert(tail_removes(l.len() as int, k).drop_last() =~= tail_removes(
            l.len() as int,
            (k - 1) as nat,
        ));
        lemma_removes(l, new, (k - 1) as nat);
        assert(l.subrange(0, l.len() - (k - 1)).remove(l.len() - k) =~= l.subrange(
            0,
            l.len() - k,
        ));
    } else {
        assert(l.subrange(0, l.len() as int) =~= l);
    }
}

/// Applying the positional operations to the old children, in order, gives
/// the new children.
pub proof fn law_positional_ops_rebuild_new(old: Seq<VirtualNode>, new: Seq<VirtualNode>)
    ensures
        apply_ops(models(old), models(new), positional_ops(old, new)) == models(new),
{
    lemma_models_len(old);
    lemma_models_len(new);
    let mo = models(old);
    let mn = models(new);
    let m = if old.len() <= new.len() {
        old.len() as int
    } else {
        new.len() as int
    };
    let ups = all_updates(m as nat);
    let ins = tail_inserts(mn, m, (new.len() - m) as nat);
    let rems = tail_removes(old.len() as int, (old.len() - m) as nat);
    assert(Seq::new((new.len() - m) as nat, |k: int| OpModel::Insert(m + k, model(new[m + k])))
        =~= ins);
    assert(positional_ops(old, new) =~= ups + ins + rems);
    lemma_apply_ops_append(mo, mn, ups + ins, rems);
    lemma_apply_ops_append(mo, mn, ups, ins);
    lemma_updates(mo, mn, m as nat);
    let after_ups = mn.subrange(0, m) + mo.subrange(m, mo.len() as int);
    if old.len() <= new.len() {
        assert(after_ups =~= mn.subrange(0, m));
        lemma_inserts(mn, m, (new.len() - m) as nat);
        assert(mn.subrange(0, new.len() as int) =~= mn);
        assert(rems =~= Seq::<OpModel>::empty());
        assert(apply_ops(mn, mn, rems) == mn);
    } else {
        assert(ins =~= Seq::<OpModel>::empty());
        assert(apply_ops(after_ups, mn, ins) == after_ups);
        assert(after_ups.len() == old.len());
        lemma_removes(after_ups, mn, (old.len() - m) as nat);
        assert(after_ups.subrange(0, after_ups.len() - (old.len() - m)) =~= mn);
    }
}

} // verus!
