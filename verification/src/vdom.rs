//! The virtual DOM: elements, text, fragments and dynamic nodes, with the
//! accessors that the renderer and the `html!` macro use.
use vstd::prelude::*;

verus! {

/// What an element node stands for.
#[derive(Clone, Debug, PartialEq, Eq)]
pub enum Tag {
    /// A DOM element with the given tag name.
    Element(String),
    /// A component, named for diagnostics.
    Component(String),
    /// A portal whose content is rendered into the target with this id.
    Portal(String),
}

/// A text node; its content is what is shown.
#[derive(Clone, Debug, PartialEq, Eq)]
pub struct TextNode {
    /// The text content.
    pub content: String,
}

impl TextNode {
    /// A text node with the given content.
    pub fn new(content: String) -> (r: TextNode)
        ensures
            r.content@ == content@,
    {
        TextNode { content }
    }

    /// The text content.
    pub fn get_content(&self) -> (r: &String)
        ensures
            r@ == self.content@,
    {
        &self.content
    }
}

/// The value of an attribute.
#[derive(Clone, Debug, PartialEq, Eq)]
pub enum AttributeValue {
    /// A static text value.
    Text(String),
    /// A value carried for a component, such as `"true"` or `"42"`.
    Dynamic(String),
}

impl From<String> for AttributeValue {
    /// A static text value.
    fn from(value: String) -> (r: AttributeValue) {
        AttributeValue::Text(value)
    }
}

impl vstd::std_specs::convert::FromSpecImpl<String> for AttributeValue {
    open spec fn obeys_from_spec() -> bool {
        true
    }

    open spec fn from_spec(value: String) -> AttributeValue {
        AttributeValue::Text(value)
    }
}

/// A named attribute of an element.
#[derive(Clone, Debug, PartialEq, Eq)]
pub struct AttributeEntry {
    /// The attribute name.
    pub name: String,
    /// The attribute value.
    pub value: AttributeValue,
}

/// A node whose subtree is produced by a render function registered
/// outside the tree, under `render_id`.
#[derive(Clone, Debug, PartialEq, Eq)]
pub struct DynamicNode {
    /// The handle of the render function.
    pub render_id: u64,
}

/// A node of the virtual DOM tree. `T` is the type of the props that a
/// component element carries.
#[derive(Debug)]
pub enum VirtualNode<T = ()> {
    /// An element: tag, attributes, children, optional diffing key and
    /// optional props.
    Element {
        tag: Tag,
        attributes: Vec<AttributeEntry>,
        children: Vec<VirtualNode>,
        key: Option<String>,
        props: Option<T>,
    },
    /// A text node.
    Text(TextNode),
    /// A list of nodes without a wrapping element.
    Fragment(Vec<VirtualNode>),
    /// A node re-rendered by its own render function.
    Dynamic(DynamicNode),
    /// Nothing.
    Empty,
}

/// The children of a node: those of an element or a fragment, none for
/// the other kinds.
pub open spec fn children_of<T>(n: VirtualNode<T>) -> Seq<VirtualNode> {
    match n {
        VirtualNode::Element { children, .. } => children@,
        VirtualNode::Fragment(children) => children@,
        _ => Seq::empty(),
    }
}

/// The diffing key of a node, as characters: only elements have one.
pub open spec fn key_of<T>(n: VirtualNode<T>) -> Option<Seq<char>> {
    match n {
        VirtualNode::Element { key: Some(k), .. } => Some(k@),
        _ => None,
    }
}

/// The tag name of a node: that of an element or a component; portals and
/// non-elements have none.
pub open spec fn tag_name_of<T>(n: VirtualNode<T>) -> Option<Seq<char>> {
    match n {
        VirtualNode::Element { tag: Tag::Element(name), .. } => Some(name@),
        VirtualNode::Element { tag: Tag::Component(name), .. } => Some(name@),
        _ => None,
    }
}

impl<T> Default for VirtualNode<T> {
    /// The empty node.
    fn default() -> (r: Self)
        ensures
            r is Empty,
    {
        VirtualNode::Empty
    }
}

/// A copy of `s`.
pub fn copy_string(s: &String) -> (r: String)
    ensures
        r == *s,
{
    s.clone()
}

/// A copy of a tag.
pub fn copy_tag(t: &Tag) -> (r: Tag)
    ensures
        r == *t,
{
    match t {
        Tag::Element(n) => Tag::Element(copy_string(n)),
        Tag::Component(n) => Tag::Component(copy_string(n)),
        Tag::Portal(n) => Tag::Portal(copy_string(n)),
    }
}

/// A copy of an attribute entry.
pub fn copy_attribute(a: &AttributeEntry) -> (r: AttributeEntry)
    ensures
        r == *a,
{
    let value: AttributeValue = match &a.value {
        AttributeValue::Text(v) => AttributeValue::Text(copy_string(v)),
        AttributeValue::Dynamic(v) => AttributeValue::Dynamic(copy_string(v)),
    };
    AttributeEntry { name: copy_string(&a.name), value }
}

/// A copy of a list of attribute entries.
pub fn copy_attributes(attrs: &Vec<AttributeEntry>) -> (r: Vec<AttributeEntry>)
    ensures
        r@ == attrs@,
{
    let mut out: Vec<AttributeEntry> = Vec::new();
    let mut i: usize = 0;
    while i < attrs.len()
        invariant
            i <= attrs@.len(),
            out@ == attrs@.subrange(0, i as int),
        decreases attrs@.len() - i,
    {
        out.push(copy_attribute(&attrs[i]));
        i = i + 1;
        assert(out@ =~= attrs@.subrange(0, i as int));
    }
    assert(attrs@.subrange(0, attrs@.len() as int) =~= attrs@);
    out
}

/// The mathematical model of a node tree: the same tree with every list
/// taken as a sequence.
pub enum NodeModel {
    Element {
        tag: Tag,
        attributes: Seq<AttributeEntry>,
        children: Seq<NodeModel>,
        key: Option<String>,
        has_props: bool,
    },
    Text(Seq<char>),
    Fragment(Seq<NodeModel>),
    Dynamic(u64),
    Empty,
}

/// The model of a node.
pub open spec fn model(n: VirtualNode) -> NodeModel
    decreases n,
{
    match n {
        VirtualNode::Element { tag, attributes, children, key, props } => NodeModel::Element {
            tag,
            attributes: attributes@,
            children: models(children@),
            key,
            has_props: props is Some,
        },
        VirtualNode::Text(t) => NodeModel::Text(t.content@),
        VirtualNode::Fragment(children) => NodeModel::Fragment(models(children@)),
        VirtualNode::Dynamic(d) => NodeModel::Dynamic(d.render_id),
        VirtualNode::Empty => NodeModel::Empty,
    }
}

/// The models of a list of nodes, in order.
pub open spec fn models(s: Seq<VirtualNode>) -> Seq<NodeModel>
    decreases s,
{
    if s.len() == 0 {
        Seq::empty()
    } else {
        models(s.drop_last()).push(model(s.last()))
    }
}

pub proof fn lemma_models_push(s: Seq<VirtualNode>, n: VirtualNode)
    ensures
        models(s.push(n)) == models(s).push(model(n)),
{
    assert(s.push(n).drop_last() =~= s);
}

pub proof fn lemma_models_len(s: Seq<VirtualNode>)
    ensures
        models(s).len() == s.len(),
        forall|i: int| 0 <= i < s.len() ==> #[trigger] models(s)[i] == model(s[i]),
    decreases s.len(),
{
    if s.len() > 0 {
        lemma_models_len(s.drop_last());
    }
}

/// A deep copy of a node tree.
pub fn copy_node(n: &VirtualNode) -> (r: VirtualNode)
    ensures
        model(r) == model(*n),
    decreases n,
{
    match n {
        VirtualNode::Element { tag, attributes, children, key, props } => {
            let k: Option<String> = match key {
                Some(k) => Some(copy_string(k)),
                None => None,
            };
            let p: Option<()> = match props {
                Some(_) => Some(()),
                None => None,
            };
            VirtualNode::Element {
                tag: copy_tag(tag),
                attributes: copy_attributes(attributes),
                children: copy_nodes(children),
                key: k,
                props: p,
            }
        },
        VirtualNode::Text(t) => VirtualNode::Text(TextNode { content: copy_string(&t.content) }),
        VirtualNode::Fragment(children) => VirtualNode::Fragment(copy_nodes(children)),
        VirtualNode::Dynamic(d) => VirtualNode::Dynamic(DynamicNode { render_id: d.render_id }),
        VirtualNode::Empty => VirtualNode::Empty,
    }
}

/// A deep copy of a list of nodes.
pub fn copy_nodes(nodes: &Vec<VirtualNode>) -> (r: Vec<VirtualNode>)
    ensures
        models(r@) == models(nodes@),
    decreases nodes,
{
    let mut out: Vec<VirtualNode> = Vec::new();
    let mut i: usize = 0;
    while i < nodes.len()
        invariant
            i <= nodes@.len(),
            models(out@) == models(nodes@.subrange(0, i as int)),
        decreases nodes@.len() - i,
    {
        proof {
            assert(decreases_to!(nodes => nodes@[i as int]));
        }
        let c: VirtualNode = copy_node(&nodes[i]);
        proof {
            lemma_models_push(out@, c);
            lemma_models_push(nodes@.subrange(0, i as int), nodes@[i as int]);
            assert(nodes@.subrange(0, i as int).push(nodes@[i as int]) =~= nodes@.subrange(
                0,
                i + 1,
            ));
        }
        out.push(c);
        i = i + 1;
    }
    assert(nodes@.subrange(0, nodes@.len() as int) =~= nodes@);
    out
}

/// Two tags name the same thing of the same kind.
pub open spec fn same_tag(a: Tag, b: Tag) -> bool {
    match (a, b) {
        (Tag::Element(x), Tag::Element(y)) => x@ == y@,
        (Tag::Component(x), Tag::Component(y)) => x@ == y@,
        (Tag::Portal(x), Tag::Portal(y)) => x@ == y@,
        _ => false,
    }
}

/// Two attribute entries have the same name and value.
pub open spec fn same_attribute(a: AttributeEntry, b: AttributeEntry) -> bool {
    a.name@ == b.name@ && match (a.value, b.value) {
        (AttributeValue::Text(x), AttributeValue::Text(y)) => x@ == y@,
        (AttributeValue::Dynamic(x), AttributeValue::Dynamic(y)) => x@ == y@,
        _ => false,
    }
}

/// Two lists of attribute entries are the same, entry by entry.
pub open spec fn same_attributes(a: Seq<AttributeEntry>, b: Seq<AttributeEntry>) -> bool {
    a.len() == b.len() && forall|i: int| 0 <= i < a.len() ==> #[trigger] same_attribute(a[i], b[i])
}

/// Visual equality of two node models: what they show is the same. Text
/// compares its content; elements compare tag, attributes, children and
/// props but not their diffing keys; fragments compare children; two
/// dynamic nodes always count as equal, since each re-renders its own
/// subtree.
pub open spec fn looks_same(a: NodeModel, b: NodeModel) -> bool
    decreases a,
{
    match (a, b) {
        (NodeModel::Text(x), NodeModel::Text(y)) => x == y,
        (
            NodeModel::Element { tag: t1, attributes: a1, children: c1, has_props: p1, .. },
            NodeModel::Element { tag: t2, attributes: a2, children: c2, has_props: p2, .. },
        ) => same_tag(t1, t2) && same_attributes(a1, a2) && all_look_same(c1, c2) && p1 == p2,
        (NodeModel::Fragment(c1), NodeModel::Fragment(c2)) => all_look_same(c1, c2),
        (NodeModel::Dynamic(_), NodeModel::Dynamic(_)) => true,
        (NodeModel::Empty, NodeModel::Empty) => true,
        _ => false,
    }
}

/// Two lists of node models have the same length and look the same,
/// position by position.
pub open spec fn all_look_same(s1: Seq<NodeModel>, s2: Seq<NodeModel>) -> bool
    decreases s1,
{
    if s1.len() != s2.len() {
        false
    } else if s1.len() == 0 {
        true
    } else {
        all_look_same(s1.drop_last(), s2.drop_last()) && looks_same(s1.last(), s2.last())
    }
}

/// Two elements look the same only if they have the same kind of tag with
/// the same name, the same attributes position by position (equal names,
/// and values of the same kind with equal text), as many children, and props
/// on both or neither; two texts look the same only if their contents are
/// equal.
pub proof fn law_looking_the_same_needs_equal_parts(a: NodeModel, b: NodeModel)
    requires
        looks_same(a, b),
    ensures
        a is Element && b is Element ==> {
            let ta = a->Element_tag;
            let tb = b->Element_tag;
            let xa = a->Element_attributes;
            let xb = b->Element_attributes;
            &&& match (ta, tb) {
                (Tag::Element(x), Tag::Element(y)) => x@ == y@,
                (Tag::Component(x), Tag::Component(y)) => x@ == y@,
                (Tag::Portal(x), Tag::Portal(y)) => x@ == y@,
                _ => false,
            }
            &&& xa.len() == xb.len()
            &&& forall|i: int| 0 <= i < xa.len() ==> (#[trigger] xa[i]).name@ == xb[i].name@ && match (
                xa[i].value,
                xb[i].value,
            ) {
                (AttributeValue::Text(x), AttributeValue::Text(y)) => x@ == y@,
                (AttributeValue::Dynamic(x), AttributeValue::Dynamic(y)) => x@ == y@,
                _ => false,
            }
            &&& a->Element_children.len() == b->Element_children.len()
            &&& a->Element_has_props == b->Element_has_props
        },
        a is Text ==> b is Text && a->Text_0 == b->Text_0,
        a is Element ==> b is Element,
        a is Fragment ==> b is Fragment,
{
    if a is Element && b is Element {
        let xa = a->Element_attributes;
        let xb = b->Element_attributes;
        assert forall|i: int| 0 <= i < xa.len() implies (#[trigger] xa[i]).name@ == xb[i].name@
            && match (xa[i].value, xb[i].value) {
            (AttributeValue::Text(x), AttributeValue::Text(y)) => x@ == y@,
            (AttributeValue::Dynamic(x), AttributeValue::Dynamic(y)) => x@ == y@,
            _ => false,
        } by {
            assert(same_attribute(xa[i], xb[i]));
        }
    }
}

fn same_string(a: &String, b: &String) -> (r: bool)
    ensures
        r == (a@ == b@),
{
    *a == *b
}

fn tags_same(a: &Tag, b: &Tag) -> (r: bool)
    ensures
        r == same_tag(*a, *b),
{
    match (a, b) {
        (Tag::Element(x), Tag::Element(y)) => same_string(x, y),
        (Tag::Component(x), Tag::Component(y)) => same_string(x, y),
        (Tag::Portal(x), Tag::Portal(y)) => same_string(x, y),
        _ => false,
    }
}

fn attributes_same(a: &Vec<AttributeEntry>, b: &Vec<AttributeEntry>) -> (r: bool)
    ensures
        r == same_attributes(a@, b@),
{
    if a.len() != b.len() {
        return false;
    }
    let mut i: usize = 0;
    while i < a.len()
        invariant
            i <= a@.len() == b@.len(),
            forall|k: int| 0 <= k < i ==> #[trigger] same_attribute(a@[k], b@[k]),
        decreases a@.len() - i,
    {
        let x: &AttributeEntry = &a[i];
        let y: &AttributeEntry = &b[i];
        let values: bool = match (&x.value, &y.value) {
            (AttributeValue::Text(u), AttributeValue::Text(v)) => same_string(u, v),
            (AttributeValue::Dynamic(u), AttributeValue::Dynamic(v)) => same_string(u, v),
            _ => false,
        };
        if !(same_string(&x.name, &y.name) && values) {
            assert(!same_attribute(a@[i as int], b@[i as int]));
            return false;
        }
        i = i + 1;
    }
    true
}

/// Whether two nodes look the same (see `looks_same`).
pub fn visually_equal(a: &VirtualNode, b: &VirtualNode) -> (r: bool)
    ensures
        r == looks_same(model(*a), model(*b)),
    decreases a,
{
    match (a, b) {
        (VirtualNode::Text(x), VirtualNode::Text(y)) => same_string(&x.content, &y.content),
        (
            VirtualNode::Element { tag: t1, attributes: a1, children: c1, props: p1, .. },
            VirtualNode::Element { tag: t2, attributes: a2, children: c2, props: p2, .. },
        ) => {
            if !tags_same(t1, t2) || !attributes_same(a1, a2) {
                return false;
            }
            if p1.is_some() != p2.is_some() {
                return false;
            }
            let r: bool = children_visually_equal(c1, c2);
            proof {
                let m1 = models(c1@);
                let m2 = models(c2@);
                let ma = model(*a);
                let mb = model(*b);
                assert(ma->Element_tag == *t1 && mb->Element_tag == *t2);
                assert(ma->Element_attributes == a1@ && mb->Element_attributes == a2@);
                assert(ma->Element_has_props == (*p1 is Some) && mb->Element_has_props == (*p2 is Some));
                assert(model(*a) matches NodeModel::Element { children, .. } && children == m1);
                assert(model(*b) matches NodeModel::Element { children, .. } && children == m2);
            }
            r
        },
        (VirtualNode::Fragment(c1), VirtualNode::Fragment(c2)) => {
            let r: bool = children_visually_equal(c1, c2);
            proof {
                assert(model(*a) == NodeModel::Fragment(models(c1@)));
                assert(model(*b) == NodeModel::Fragment(models(c2@)));
            }
            r
        },
        (VirtualNode::Dynamic(_), VirtualNode::Dynamic(_)) => true,
        (VirtualNode::Empty, VirtualNode::Empty) => true,
        _ => false,
    }
}

/// Whether two lists of nodes look the same, node by node.
pub fn children_visually_equal(a: &Vec<VirtualNode>, b: &Vec<VirtualNode>) -> (r: bool)
    ensures
        r == all_look_same(models(a@), models(b@)),
    decreases a,
{
    proof {
        lemma_models_len(a@);
        lemma_models_len(b@);
    }
    if a.len() != b.len() {
        return false;
    }
    let mut i: usize = 0;
    while i < a.len()
        invariant
            i <= a@.len() == b@.len(),
            models(a@).len() == a@.len() && models(b@).len() == b@.len(),
            all_look_same(models(a@.subrange(0, i as int)), models(b@.subrange(0, i as int))),
        decreases a@.len() - i,
    {
        proof {
            assert(decreases_to!(a => a@[i as int]));
            lemma_models_push(a@.subrange(0, i as int), a@[i as int]);
            lemma_models_push(b@.subrange(0, i as int), b@[i as int]);
            assert(a@.subrange(0, i as int).push(a@[i as int]) =~= a@.subrange(0, i + 1));
            assert(b@.subrange(0, i as int).push(b@[i as int]) =~= b@.subrange(0, i + 1));
            lemma_models_len(a@.subrange(0, i + 1));
            lemma_models_len(b@.subrange(0, i + 1));
        }
        let same: bool = visually_equal(&a[i], &b[i]);
        proof {
            let p1 = models(a@.subrange(0, i + 1));
            let p2 = models(b@.subrange(0, i + 1));
            assert(p1.drop_last() =~= models(a@.subrange(0, i as int)));
            assert(p2.drop_last() =~= models(b@.subrange(0, i as int)));
        }
        if !same {
            proof {
                if all_look_same(models(a@), models(b@)) {
                    lemma_all_look_same_prefix(models(a@), models(b@), i + 1);
                }
                assert(a@.subrange(0, a@.len() as int) =~= a@);
                assert(b@.subrange(0, b@.len() as int) =~= b@);
                lemma_models_prefix(a@, i + 1);
                lemma_models_prefix(b@, i + 1);
            }
            return false;
        }
        i = i + 1;
    }
    assert(a@.subrange(0, a@.len() as int) =~= a@);
    assert(b@.subrange(0, b@.len() as int) =~= b@);
    true
}

/// The models of a prefix are the prefix of the models.
pub proof fn lemma_models_prefix(s: Seq<VirtualNode>, n: int)
    requires
        0 <= n <= s.len(),
    ensures
        models(s.subrange(0, n)) == models(s).subrange(0, n),
    decreases s.len() - n,
{
    lemma_models_len(s);
    lemma_models_len(s.subrange(0, n));
    assert(models(s.subrange(0, n)) =~= models(s).subrange(0, n));
}

/// Lists that look the same have prefixes that look the same.
pub proof fn lemma_all_look_same_prefix(s1: Seq<NodeModel>, s2: Seq<NodeModel>, n: int)
    requires
        all_look_same(s1, s2),
        0 <= n <= s1.len(),
    ensures
        all_look_same(s1.subrange(0, n), s2.subrange(0, n)),
    decreases s1.len() - n,
{
    if n < s1.len() {
        assert(s1.drop_last() =~= s1.subrange(0, s1.len() - 1));
        assert(s2.drop_last() =~= s2.subrange(0, s2.len() - 1));
        lemma_all_look_same_prefix(s1.drop_last(), s2.drop_last(), n);
        assert(s1.drop_last().subrange(0, n) =~= s1.subrange(0, n));
        assert(s2.drop_last().subrange(0, n) =~= s2.subrange(0, n));
    } else {
        assert(s1.subrange(0, n) =~= s1);
        assert(s2.subrange(0, n) =~= s2);
    }
}

impl PartialEq for VirtualNode {
    /// Visual equality: see `looks_same`.
    fn eq(&self, other: &Self) -> (r: bool) {
        visually_equal(self, other)
    }
}

impl vstd::std_specs::cmp::PartialEqSpecImpl for VirtualNode {
    open spec fn obeys_eq_spec() -> bool {
        true
    }

    open spec fn eq_spec(&self, other: &VirtualNode) -> bool {
        looks_same(model(*self), model(*other))
    }
}

impl Clone for VirtualNode {
    /// A deep copy of the tree.
    fn clone(&self) -> (r: Self)
        ensures
            model(r) == model(*self),
    {
        copy_node(self)
    }
}

impl<T> VirtualNode<T> {
    /// The tag name of an element or component node; `None` for portals and
    /// for every other kind of node.
    pub fn try_get_tag_name(&self) -> (r: Option<String>)
        ensures
            r matches Some(name) ==> tag_name_of(*self) == Some(name@),
            r is None <==> tag_name_of(*self) is None,
    {
        match self {
            VirtualNode::Element { tag, .. } => match tag {
                Tag::Element(name) => Some(copy_string(name)),
                Tag::Component(name) => Some(copy_string(name)),
                Tag::Portal(_) => None,
            },
            _ => None,
        }
    }

    /// The children of an element or a fragment; empty for other nodes.
    pub fn get_children(&self) -> (r: &[VirtualNode])
        ensures
            r@ == children_of(*self),
    {
        match self {
            VirtualNode::Element { children, .. } => children.as_slice(),
            VirtualNode::Fragment(children) => children.as_slice(),
            _ => &[],
        }
    }

    /// The first child, if there is one.
    pub fn get_first_child(&self) -> (r: Option<&VirtualNode>)
        ensures
            children_of(*self).len() == 0 ==> r is None,
            children_of(*self).len() > 0 ==> r == Some(&children_of(*self)[0]),
    {
        let children: &[VirtualNode] = self.get_children();
        if children.len() == 0 {
            None
        } else {
            Some(&children[0])
        }
    }

    /// Whether the node has at least one child.
    pub fn has_children(&self) -> (r: bool)
        ensures
            r == (children_of(*self).len() > 0),
    {
        self.get_children().len() != 0
    }

    /// The children of an element or a fragment; `None` for the other kinds,
    /// which cannot have children.
    pub fn try_get_children(&self) -> (r: Option<&[VirtualNode]>)
        ensures
            r matches Some(c) ==> c@ == children_of(*self),
            r is Some <==> (self is Element || self is Fragment),
    {
        match self {
            VirtualNode::Element { children, .. } => Some(children.as_slice()),
            VirtualNode::Fragment(children) => Some(children.as_slice()),
            _ => None,
        }
    }

    /// A copy of the props of an element; `None` for nodes without props.
    pub fn try_get_props(&self) -> (r: Option<T>) where T: Clone
        ensures
            r is Some <==> (*self matches VirtualNode::Element { props: Some(_), .. }),
            *self matches VirtualNode::Element { props: Some(p), .. } ==> cloned(p, r->0),
    {
        match self {
            VirtualNode::Element { props, .. } => match props {
                Some(p) => Some(p.clone()),
                None => None,
            },
            _ => None,
        }
    }

    /// The element with `extra` appended to its attributes; any other node
    /// is returned unchanged and the entries are dropped.
    pub fn extend_attributes(self, extra: Vec<AttributeEntry>) -> (r: Self)
        ensures
            match (self, r) {
                (
                    VirtualNode::Element { tag, attributes, children, key, props },
                    VirtualNode::Element {
                        tag: t2,
                        attributes: a2,
                        children: c2,
                        key: k2,
                        props: p2,
                    },
                ) => t2 == tag && a2@ == attributes@ + extra@ && c2 == children && k2 == key && p2
                    == props,
                (VirtualNode::Element { .. }, _) => false,
                _ => r == self,
            },
    {
        match self {
            VirtualNode::Element { tag, attributes, children, key, props } => {
                let mut attrs: Vec<AttributeEntry> = attributes;
                let mut extra: Vec<AttributeEntry> = extra;
                attrs.append(&mut extra);
                VirtualNode::Element { tag, attributes: attrs, children, key, props }
            },
            other => other,
        }
    }

    /// The diffing key of an element; `None` for unkeyed elements and for
    /// every other kind of node.
    pub fn key(&self) -> (r: Option<&str>)
        ensures
            r matches Some(k) ==> key_of(*self) == Some(k@),
            r is None <==> key_of(*self) is None,
    {
        match self {
            VirtualNode::Element { key, .. } => match key {
                Some(k) => Some(k.as_str()),
                None => None,
            },
            _ => None,
        }
    }

    /// Whether the node has a diffing key.
    pub fn has_key(&self) -> (r: bool)
        ensures
            r == (key_of(*self) is Some),
    {
        self.key().is_some()
    }
}

} // verus!
