use vstd::prelude::*;
use vstd::string::StringExecFns;
use crate::base::{sat, Length, Percentage, U32_MAX};
use crate::dim3::Dim3;
use crate::error::RsmlError;
use crate::flex::{basis_size, Axis};
use crate::placement::{align_offset, calculate_positions_on_axis, cross_offset, main_offset};
use crate::package::{catalogue_size, Package};
use crate::style::{
    default_style, length_size, merge, merge3, size_add, size_max, style_parse, Display,
    SizeValue, SpaceSize, Style,
};
use crate::text::{chars_of, eq_exact, eq_nocase, eq_word, trim, trim_str};
use crate::xml::{attribute_of, Element};

verus! {

/// Whether a node is a structural container or a reference to a catalogued thing.
#[derive(Debug, Clone, Copy, PartialEq, Eq, Structural)]
pub enum RenderNodeType {
    /// Any tag but `object` and `group`.
    Space,
    /// An `object` or `group`, sized by the catalogue.
    Item,
}

/// A place in space.
#[derive(Debug, Clone, Copy, PartialEq, Eq, Structural)]
pub struct AbsoluteSpace {
    pub pos: Dim3<Length>,
}

/// What layout works out for a node beyond its size.
#[derive(Debug, Clone)]
pub struct NodeAttr {
    pub absolute_size: Dim3<Length>,
    /// The node's offset inside its container.
    pub absolute_pos: Dim3<Length>,
    /// The offsets this node gave its children, in child order.
    pub flex_child_space: Vec<AbsoluteSpace>,
}

pub open spec fn zero3() -> Dim3<Length> {
    Dim3 { x: Length(0), y: Length(0), z: Length(0) }
}

impl Default for NodeAttr {
    fn default() -> (r: NodeAttr)
        ensures
            r.absolute_size == zero3(),
            r.absolute_pos == zero3(),
            r.flex_child_space@.len() == 0,
    {
        NodeAttr {
            absolute_size: Dim3 { x: Length(0), y: Length(0), z: Length(0) },
            absolute_pos: Dim3 { x: Length(0), y: Length(0), z: Length(0) },
            flex_child_space: Vec::new(),
        }
    }
}

/// One node of the render tree. Nodes live in the tree's arena and refer to each
/// other by index.
#[derive(Debug)]
pub struct RenderNode {
    pub node_type: RenderNodeType,
    pub id: Option<String>,
    pub tag_name: String,
    /// For an item, the catalogue name it refers to.
    pub text_content: String,
    pub specified_style: Style,
    /// The style as resolved by layout; its `size` is what the passes compute.
    pub computed_style: Style,
    pub attr: NodeAttr,
    /// Index of the parent node, if any.
    pub parent: Option<usize>,
    /// Indices of the child nodes, in document order.
    pub children: Vec<usize>,
}

impl RenderNode {
    /// A node with no links, no id, no text and the default style.
    pub fn new(tag_name: String, node_type: RenderNodeType) -> (r: RenderNode)
        ensures
            r.tag_name == tag_name,
            r.node_type == node_type,
            r.id is None,
            r.text_content@.len() == 0,
            r.specified_style == default_style(),
            r.computed_style == default_style(),
            r.parent is None,
            r.children@.len() == 0,
            r.attr.absolute_pos == zero3(),
    {
        RenderNode {
            node_type,
            id: None,
            tag_name,
            text_content: String::new(),
            specified_style: Style::new(),
            computed_style: Style::new(),
            attr: NodeAttr::default(),
            parent: None,
            children: Vec::new(),
        }
    }

    pub fn set_id(&mut self, id: String)
        ensures
            *final(self) == (RenderNode { id: Some(id), ..*old(self) }),
    {
        self.id = Some(id);
    }

    pub fn set_text_content(&mut self, text: String)
        ensures
            *final(self) == (RenderNode { text_content: text, ..*old(self) }),
    {
        self.text_content = text;
    }

    pub fn set_specified_style(&mut self, style: Style)
        ensures
            *final(self) == (RenderNode { specified_style: style, ..*old(self) }),
    {
        self.specified_style = style;
    }

    /// Records `child` as the last child of this node.
    pub fn append_child(&mut self, child: usize)
        ensures
            *final(self) == (RenderNode { children: final(self).children, ..*old(self) }),
            final(self).children@ == old(self).children@.push(child),
    {
        self.children.push(child);
    }

    /// Index of the parent node, if any.
    pub fn parent(&self) -> (r: Option<usize>)
        ensures
            r == self.parent,
    {
        self.parent
    }
}

/// The kind of node a tag makes.
pub open spec fn node_type_of(tag: Seq<char>) -> RenderNodeType {
    if eq_nocase(tag, "object"@) || eq_nocase(tag, "group"@) {
        RenderNodeType::Item
    } else {
        RenderNodeType::Space
    }
}

/// `object` and `group` (in any ASCII case) are items; every other tag is a space.
pub fn determine_node_type(tag_name: &str) -> (r: RenderNodeType)
    ensures
        r == node_type_of(tag_name@),
{
    let t = chars_of(tag_name);
    if eq_word(&t, "object") || eq_word(&t, "group") {
        RenderNodeType::Item
    } else {
        RenderNodeType::Space
    }
}

/// The declarations a node's style is read from: the defaults of its kind, then its
/// own `style` attribute, and for `body` the fixed size of the scene.
pub open spec fn style_source(el: Element) -> Seq<char> {
    let own = match attribute_of(el.attributes@, "style"@) {
        Some(s) => s@,
        None => Seq::<char>::empty(),
    };
    let base = match node_type_of(el.name@) {
        RenderNodeType::Item => "display:flex"@,
        RenderNodeType::Space => "display:flex;flex-direction:z-reverse"@,
    };
    if el.name@ == "body"@ {
        base + ";"@ + own + ";size:100m 100m 100m"@
    } else {
        base + ";"@ + own
    }
}

/// The specified style of the node built for `el`; a style that cannot be read
/// leaves the default style.
pub open spec fn built_style(el: Element) -> Style {
    match style_parse(style_source(el)) {
        Ok(st) => st,
        Err(_) => default_style(),
    }
}

/// The arena links: every parent comes before its children, every child link points
/// forward to a node that names the same parent, and children are listed in increasing order.
pub open spec fn wf_nodes(ns: Seq<RenderNode>) -> bool {
    &&& forall|i: int|
        0 <= i < ns.len() && (#[trigger] ns[i].parent) is Some ==> (ns[i].parent->0 as int) < i
    &&& forall|i: int, k: int|
        0 <= i < ns.len() && 0 <= k < ns[i].children@.len() ==> i < #[trigger] ns[i].children@[k]
            < ns.len() && ns[ns[i].children@[k] as int].parent == Some(i as usize)
    &&& forall|i: int, k1: int, k2: int|
        0 <= i < ns.len() && 0 <= k1 < k2 < ns[i].children@.len() ==> #[trigger] ns[i].children@[k1]
            < #[trigger] ns[i].children@[k2]
}

/// Node `n` was built from element `el`, its descendants aside.
pub open spec fn node_matches(n: RenderNode, el: Element) -> bool {
    &&& n.tag_name@ == el.name@
    &&& n.node_type == node_type_of(el.name@)
    &&& n.specified_style == built_style(el)
    &&& n.text_content@ == trim(el.text@)
    &&& n.children@.len() == el.children@.len()
    &&& n.computed_style == default_style()
    &&& match attribute_of(el.attributes@, "id"@) {
        Some(v) => n.id == Some(v),
        None => n.id is None,
    }
}

/// Node `r` of `ns` and all its descendants were built from `el` and its descendants,
/// child for child.
pub open spec fn built_from(ns: Seq<RenderNode>, r: int, el: Element) -> bool
    decreases el,
{
    &&& 0 <= r < ns.len()
    &&& node_matches(ns[r], el)
    &&& forall|k: int|
        0 <= k < el.children@.len() ==> built_from(
            ns,
            ns[r].children@[k] as int,
            #[trigger] el.children@[k],
        )
}

proof fn lemma_built_from_stable(ns: Seq<RenderNode>, ns2: Seq<RenderNode>, r: int, el: Element)
    requires
        built_from(ns, r, el),
        wf_nodes(ns),
        ns2.len() >= ns.len(),
        forall|i: int| r <= i < ns.len() ==> #[trigger] ns2[i] == ns[i],
    ensures
        built_from(ns2, r, el),
    decreases el,
{
    assert forall|k: int| 0 <= k < el.children@.len() implies built_from(
        ns2,
        ns2[r].children@[k] as int,
        #[trigger] el.children@[k],
    ) by {
        let c = ns[r].children@[k] as int;
        assert(built_from(ns, c, el.children@[k]));
        assert(r < c);
        lemma_built_from_stable(ns, ns2, c, el.children@[k]);
    }
}

/// Builds the node for `el` and its descendants at the end of `nodes`, in document
/// order, and returns the index of the node for `el`.
fn build_node_recursive(nodes: &mut Vec<RenderNode>, el: &Element, parent: Option<usize>) -> (r:
    usize)
    requires
        wf_nodes(old(nodes)@),
        parent is Some ==> parent->0 < old(nodes)@.len(),
    ensures
        r == old(nodes)@.len(),
        final(nodes)@.len() > r,
        final(nodes)@.take(r as int) == old(nodes)@,
        wf_nodes(final(nodes)@),
        final(nodes)@[r as int].parent == parent,
        built_from(final(nodes)@, r as int, *el),
        forall|j: int|
            r < j < final(nodes)@.len() ==> (#[trigger] final(nodes)@[j]).parent is Some
                && r <= final(nodes)@[j].parent->0,
    decreases el,
{
    let node_type = determine_node_type(el.name.as_str());
    let mut node = RenderNode::new(el.name.clone(), node_type);
    node.parent = parent;
    match el.get_attribute("id") {
        Some(id) => node.set_id(id.clone()),
        None => {},
    }
    let text = trim_str(el.text.as_str());
    node.set_text_content(text.to_owned());
    let base = match node_type {
        RenderNodeType::Item => "display:flex",
        RenderNodeType::Space => "display:flex;flex-direction:z-reverse",
    };
    let mut source = base.to_owned().concat(";");
    match el.get_attribute("style") {
        Some(s) => {
            source = source.concat(s.as_str());
        },
        None => {},
    }
    let n = chars_of(el.name.as_str());
    if eq_exact(&n, "body") {
        source = source.concat(";size:100m 100m 100m");
    }
    proof {
        assert(source@ =~= style_source(*el));
    }
    match Style::from_style_string(source.as_str()) {
        Ok(st) => node.set_specified_style(st),
        Err(_) => {},
    }
    let r = nodes.len();
    nodes.push(node);
    assert(nodes@.take(r as int) =~= old(nodes)@);
    let mut i: usize = 0;
    while i < el.children.len()
        invariant
            r == old(nodes)@.len(),
            nodes@.len() > r,
            nodes@.take(r as int) == old(nodes)@,
            wf_nodes(nodes@),
            i <= el.children@.len(),
            nodes@[r as int].parent == parent,
            nodes@[r as int].tag_name@ == el.name@,
            nodes@[r as int].node_type == node_type_of(el.name@),
            nodes@[r as int].specified_style == built_style(*el),
            nodes@[r as int].text_content@ == trim(el.text@),
            nodes@[r as int].computed_style == default_style(),
            nodes@[r as int].children@.len() == i,
            match attribute_of(el.attributes@, "id"@) {
                Some(v) => nodes@[r as int].id == Some(v),
                None => nodes@[r as int].id is None,
            },
            forall|k: int| 0 <= k < i ==> #[trigger] nodes@[r as int].children@[k] < nodes@.len(),
            forall|k: int|
                0 <= k < i ==> built_from(
                    nodes@,
                    nodes@[r as int].children@[k] as int,
                    #[trigger] el.children@[k],
                ),
            forall|j: int|
                r < j < nodes@.len() ==> (#[trigger] nodes@[j]).parent is Some && r
                    <= nodes@[j].parent->0,
        decreases el.children@.len() - i,
    {
        let ghost before = nodes@;
        let c = build_node_recursive(nodes, &el.children[i], Some(r));
        assert(nodes@[r as int] == before[r as int]) by {
            assert(nodes@.take(c as int)[r as int] == before[r as int]);
        }
        let ghost mid = nodes@;
        nodes[r].children.push(c);
        proof {
            let ns = nodes@;
            assert forall|j: int| 0 <= j < ns.len() && j != r implies ns[j] == mid[j] by {}
            assert forall|j: int| 0 <= j < ns.len() && j < c implies mid[j] == before[j] by {
                assert(mid.take(c as int)[j] == before[j]);
            }
            assert forall|a: int, k: int|
                0 <= a < ns.len() && 0 <= k < ns[a].children@.len() implies a
                < #[trigger] ns[a].children@[k] < ns.len() && ns[ns[a].children@[k] as int].parent
                == Some(a as usize) by {
                if a == r {
                    if k < i {
                        assert(ns[a].children@[k] == before[r as int].children@[k]);
                        assert(before[r as int].children@[k] < before.len());
                        assert(mid[ns[a].children@[k] as int] == before[ns[a].children@[k] as int]);
                    }
                } else {
                    assert(ns[a] == mid[a]);
                }
            }
            assert forall|a: int, k1: int, k2: int|
                0 <= a < ns.len() && 0 <= k1 < k2 < ns[a].children@.len() implies #[trigger] ns[a].children@[k1]
                < #[trigger] ns[a].children@[k2] by {
                if a == r {
                    if k2 == i {
                        assert(ns[a].children@[k1] == before[r as int].children@[k1]);
                    } else {
                        assert(ns[a].children@[k1] == before[r as int].children@[k1]);
                        assert(ns[a].children@[k2] == before[r as int].children@[k2]);
                    }
                } else {
                    assert(ns[a] == mid[a]);
                }
            }
            assert forall|a: int| 0 <= a < ns.len() && (#[trigger] ns[a].parent) is Some implies (
            ns[a].parent->0 as int) < a by {
                assert(ns[a].parent == mid[a].parent);
            }
            assert(nodes@.take(r as int) =~= old(nodes)@) by {
                assert forall|j: int| 0 <= j < r implies nodes@[j] == old(nodes)@[j] by {
                    assert(before.take(r as int)[j] == old(nodes)@[j]);
                }
            }
            assert forall|k: int| 0 <= k < i + 1 implies built_from(
                ns,
                ns[r as int].children@[k] as int,
                #[trigger] el.children@[k],
            ) by {
                let ck = ns[r as int].children@[k] as int;
                if k < i {
                    assert(ck == before[r as int].children@[k]);
                    assert(built_from(before, ck, el.children@[k]));
                    lemma_built_from_stable(before, ns, ck, el.children@[k]);
                } else {
                    assert(ck == c);
                    lemma_built_from_stable(mid, ns, ck, el.children@[k]);
                }
            }
            assert forall|j: int| r < j < ns.len() implies (#[trigger] ns[j]).parent is Some && r
                <= ns[j].parent->0 by {
                if j < c {
                    assert(ns[j] == before[j]);
                } else if j > c {
                    assert(ns[j] == mid[j]);
                } else {
                    assert(ns[j] == mid[j]);
                }
            }
        }
        i = i + 1;
    }
    assert(built_from(nodes@, r as int, *el));
    r
}

/// What a percentage of `l` gives, in whole millimetres.
pub open spec fn percent_of(l: Length, p: Percentage) -> Length {
    Length(sat(l.0 * p.0 / 100))
}

/// A size value resolved against the parent's value on the same axis: a percentage
/// becomes a length only when the parent's value is a length.
pub open spec fn resolve_axis(v: SizeValue, parent: SizeValue) -> SizeValue {
    match v {
        SizeValue::Length(l) => SizeValue::Length(l),
        SizeValue::Percentage(p) => match parent {
            SizeValue::Length(pl) => SizeValue::Length(percent_of(pl, p)),
            _ => SizeValue::Auto,
        },
        SizeValue::Auto => SizeValue::Auto,
    }
}

pub open spec fn resolve3(s: SpaceSize, parent: SpaceSize) -> SpaceSize {
    SpaceSize {
        x: resolve_axis(s.x, parent.x),
        y: resolve_axis(s.y, parent.y),
        z: resolve_axis(s.z, parent.z),
    }
}

/// The size of a node after one top-down step: its specified size resolved against
/// the parent's, then, inside a flex parent, its basis on the parent's main axis.
pub open spec fn size_from_parent(
    cur: SpaceSize,
    own: Style,
    parent_size: SpaceSize,
    parent_style: Style,
) -> SpaceSize {
    let a = merge3(cur, resolve3(own.size, parent_size));
    if parent_style.display is Flex {
        merge_basis(
            a,
            resolve3(basis_size(own.flex_basis, parent_style.flex_direction), parent_size),
            own.size,
        )
    } else {
        a
    }
}

/// The slot `a` after a flex basis `basis`, on an axis whose specified value is `own`:
/// the basis fills only an axis that the author did not give as a length.
pub open spec fn basis_axis(a: SizeValue, basis: SizeValue, own: SizeValue) -> SizeValue {
    if own is Length {
        a
    } else {
        merge(a, basis)
    }
}

pub open spec fn merge_basis(a: SpaceSize, basis: SpaceSize, own: SpaceSize) -> SpaceSize {
    SpaceSize {
        x: basis_axis(a.x, basis.x, own.x),
        y: basis_axis(a.y, basis.y, own.y),
        z: basis_axis(a.z, basis.z, own.z),
    }
}

/// An axis that the author gave as a length comes out of the top-down step as exactly
/// that length, whatever the parent's size and the node's flex basis.
pub proof fn lemma_explicit_length_kept(
    cur: SpaceSize,
    own: Style,
    parent_size: SpaceSize,
    parent_style: Style,
)
    ensures
        own.size.x is Length ==> size_from_parent(cur, own, parent_size, parent_style).x
            == own.size.x,
        own.size.y is Length ==> size_from_parent(cur, own, parent_size, parent_style).y
            == own.size.y,
        own.size.z is Length ==> size_from_parent(cur, own, parent_size, parent_style).z
            == own.size.z,
{
}

/// The container's size built from its children: summed on the main axis, the
/// largest on the other two.
pub open spec fn flex_fold(init: SpaceSize, kids: Seq<SpaceSize>, axis: Axis) -> SpaceSize
    decreases kids.len(),
{
    if kids.len() == 0 {
        init
    } else {
        let acc = flex_fold(init, kids.drop_last(), axis);
        let c = kids.last();
        match axis {
            Axis::X => SpaceSize {
                x: size_add(acc.x, c.x),
                y: size_max(acc.y, c.y),
                z: size_max(acc.z, c.z),
            },
            Axis::Y => SpaceSize {
                x: size_max(acc.x, c.x),
                y: size_add(acc.y, c.y),
                z: size_max(acc.z, c.z),
            },
            Axis::Z => SpaceSize {
                x: size_max(acc.x, c.x),
                y: size_max(acc.y, c.y),
                z: size_add(acc.z, c.z),
            },
        }
    }
}

/// The sizes of the children of node `j`, in child order.
pub open spec fn kid_sizes(ns: Seq<RenderNode>, sizes: Seq<SpaceSize>, j: int) -> Seq<SpaceSize> {
    ns[j].children@.map_values(|c: usize| sizes[c as int])
}

/// Whether the bottom-up step succeeds on node `n` of size `cur`.
pub open spec fn up_ok(n: RenderNode, cur: SpaceSize, pkg: Package) -> bool {
    match n.node_type {
        RenderNodeType::Item => catalogue_size(pkg, n.text_content@) is Some,
        RenderNodeType::Space => n.specified_style.display is Cube ==> !cur.any_auto(),
    }
}

/// The error of the bottom-up step on node `n`, when it fails.
pub open spec fn up_error(n: RenderNode) -> RsmlError {
    match n.node_type {
        RenderNodeType::Item => RsmlError::MissingCatalogueEntry,
        RenderNodeType::Space => RsmlError::CubeSizeError,
    }
}

/// An axis that already holds a length keeps it; any other axis takes `cand`.
pub open spec fn fill_axis(cur: SizeValue, cand: SizeValue) -> SizeValue {
    if cur is Length {
        cur
    } else {
        cand
    }
}

pub open spec fn fill_size(cur: SpaceSize, cand: SpaceSize) -> SpaceSize {
    SpaceSize {
        x: fill_axis(cur.x, cand.x),
        y: fill_axis(cur.y, cand.y),
        z: fill_axis(cur.z, cand.z),
    }
}

/// The size of node `n` (now `cur`) after the bottom-up step, given its children's
/// sizes: an item takes its catalogue box; a cube keeps its size; a flex space keeps
/// every axis that is already a length, and each other axis takes the sum of its
/// children's lengths along the main axis or the largest of them across it.
pub open spec fn size_from_children(
    n: RenderNode,
    cur: SpaceSize,
    kids: Seq<SpaceSize>,
    pkg: Package,
) -> SpaceSize {
    match n.node_type {
        RenderNodeType::Item => length_size(catalogue_size(pkg, n.text_content@)->0),
        RenderNodeType::Space => if n.specified_style.display is Cube || cur.all_len() {
            cur
        } else {
            fill_size(
                cur,
                flex_fold(
                    length_size(zero3()),
                    kids,
                    n.specified_style.flex_direction.axis(),
                ),
            )
        },
    }
}

/// In the bottom-up step a space keeps every axis that is already a length: explicit
/// sizes win over what the children need.
pub proof fn lemma_space_keeps_lengths(n: RenderNode, cur: SpaceSize, kids: Seq<SpaceSize>, pkg: Package)
    requires
        n.node_type is Space,
    ensures
        cur.x is Length ==> size_from_children(n, cur, kids, pkg).x == cur.x,
        cur.y is Length ==> size_from_children(n, cur, kids, pkg).y == cur.y,
        cur.z is Length ==> size_from_children(n, cur, kids, pkg).z == cur.z,
{
}

/// The nodes after `b` up to `e` all descend from `b`, and `e` does not.
pub open spec fn subtree_range(ns: Seq<RenderNode>, b: int, e: int) -> bool {
    &&& 0 <= b < e <= ns.len()
    &&& forall|j: int|
        b < j < e ==> (#[trigger] ns[j]).parent is Some && b <= ns[j].parent->0
    &&& e < ns.len() ==> !(ns[e].parent is Some && b <= ns[e].parent->0)
}

pub open spec fn is_body(n: RenderNode) -> bool {
    n.tag_name@ == "body"@
}

/// A percentage resolves only against a parent value that is a length; against a
/// percentage or `auto` it stays `auto`.
pub proof fn lemma_percentage_needs_length_parent(p: Percentage, parent: SizeValue)
    ensures
        !(parent is Length) ==> resolve_axis(SizeValue::Percentage(p), parent) == SizeValue::Auto,
        parent is Length ==> resolve_axis(SizeValue::Percentage(p), parent) == SizeValue::Length(
            percent_of(parent->Length_0, p),
        ),
{
}

/// A percentage of at most 100 never exceeds the parent length it resolves against.
pub proof fn lemma_percentage_within_parent(p: Percentage, l: Length)
    requires
        p.0 <= 100,
    ensures
        percent_of(l, p).0 <= l.0,
{
    assert(l.0 * p.0 <= l.0 * 100) by (nonlinear_arith)
        requires
            p.0 <= 100,
    ;
}

/// A size value resolved against the parent's value on the same axis.
pub fn calculate_dimension_size(size_value: &SizeValue, parent_size_value: &SizeValue) -> (r:
    SizeValue)
    ensures
        r == resolve_axis(*size_value, *parent_size_value),
{
    match size_value {
        SizeValue::Length(l) => SizeValue::Length(*l),
        SizeValue::Percentage(p) => match parent_size_value {
            SizeValue::Length(pl) => {
                assert((pl.0 as u64) * (p.0 as u64) <= U32_MAX * U32_MAX) by (nonlinear_arith)
                    requires
                        pl.0 <= U32_MAX,
                        p.0 <= U32_MAX,
                ;
                let v = (pl.0 as u64) * (p.0 as u64) / 100;
                if v > U32_MAX {
                    SizeValue::Length(Length(u32::MAX))
                } else {
                    SizeValue::Length(Length(v as u32))
                }
            },
            _ => SizeValue::Auto,
        },
        SizeValue::Auto => SizeValue::Auto,
    }
}

fn resolve_size(s: &SpaceSize, parent: &SpaceSize) -> (r: SpaceSize)
    ensures
        r == resolve3(*s, *parent),
{
    SpaceSize {
        x: calculate_dimension_size(&s.x, &parent.x),
        y: calculate_dimension_size(&s.y, &parent.y),
        z: calculate_dimension_size(&s.z, &parent.z),
    }
}

/// The container's size built from its children's sizes, starting from `init`.
fn cal_flex_child_size(init: SpaceSize, kids: &Vec<SpaceSize>, axis: Axis) -> (r: SpaceSize)
    ensures
        r == flex_fold(init, kids@, axis),
{
    let mut acc = init;
    let mut i: usize = 0;
    while i < kids.len()
        invariant
            i <= kids@.len(),
            acc == flex_fold(init, kids@.take(i as int), axis),
        decreases kids@.len() - i,
    {
        assert(kids@.take(i as int + 1).drop_last() =~= kids@.take(i as int));
        let c = kids[i];
        match axis {
            Axis::X => {
                acc.x.add(&c.x);
                acc.y.max(&c.y);
                acc.z.max(&c.z);
            },
            Axis::Y => {
                acc.x.max(&c.x);
                acc.y.add(&c.y);
                acc.z.max(&c.z);
            },
            Axis::Z => {
                acc.x.max(&c.x);
                acc.y.max(&c.y);
                acc.z.add(&c.z);
            },
        }
        i = i + 1;
    }
    assert(kids@.take(kids@.len() as int) =~= kids@);
    acc
}

/// A render tree: an arena of nodes built from an element tree, and the catalogue
/// that sizes its items.
pub struct RenderTree<'a> {
    pub nodes: Vec<RenderNode>,
    pub root: usize,
    pub package: &'a Package,
}

impl<'a> RenderTree<'a> {
    pub open spec fn wf(&self) -> bool {
        wf_nodes(self.nodes@) && self.root < self.nodes@.len()
    }

    /// Builds the tree for `dom_element` and its descendants; the root is node 0.
    pub fn new(dom_element: &Element, package: &'a Package) -> (r: Result<RenderTree<'a>, RsmlError>)
        ensures
            r is Ok,
            r->Ok_0.wf(),
            r->Ok_0.root == 0,
            r->Ok_0.package == package,
            r->Ok_0.nodes@[0].parent is None,
            built_from(r->Ok_0.nodes@, 0, *dom_element),
    {
        let mut nodes: Vec<RenderNode> = Vec::new();
        let root = build_node_recursive(&mut nodes, dom_element, None);
        Ok(RenderTree { nodes, root, package })
    }

    /// The first node, in document order, whose tag is `body`.
    pub open spec fn find_body_spec(&self) -> Option<int> {
        if exists|b: int| 0 <= b < self.nodes@.len() && is_body(self.nodes@[b]) {
            Some(
                choose|b: int|
                    0 <= b < self.nodes@.len() && is_body(self.nodes@[b]) && forall|j: int|
                        0 <= j < b ==> !is_body(#[trigger] self.nodes@[j]),
            )
        } else {
            None
        }
    }

    /// One past the last node of the subtree of `b`.
    pub open spec fn subtree_end_spec(&self, b: int) -> int {
        choose|e: int| subtree_range(self.nodes@, b, e)
    }

    /// The first node, in document order, whose tag is `body`.
    pub fn find_body_node(&self) -> (r: Option<usize>)
        ensures
            r matches Some(b) ==> self.find_body_spec() == Some(b as int),
            r is None ==> self.find_body_spec() is None,
            match r {
                Some(b) => b < self.nodes@.len() && is_body(self.nodes@[b as int]) && forall|j: int|
                    0 <= j < b ==> !is_body(#[trigger] self.nodes@[j]),
                None => forall|j: int|
                    0 <= j < self.nodes@.len() ==> !is_body(#[trigger] self.nodes@[j]),
            },
    {
        let mut i: usize = 0;
        while i < self.nodes.len()
            invariant
                i <= self.nodes@.len(),
                forall|j: int| 0 <= j < i ==> !is_body(#[trigger] self.nodes@[j]),
            decreases self.nodes@.len() - i,
        {
            let t = chars_of(self.nodes[i].tag_name.as_str());
            if eq_exact(&t, "body") {
                proof {
                    self.lemma_find_body(i as int);
                }
                return Some(i);
            }
            i = i + 1;
        }
        None
    }

    /// One past the last node of the subtree of `b`.
    pub fn subtree_end(&self, b: usize) -> (e: usize)
        requires
            b < self.nodes@.len(),
        ensures
            subtree_range(self.nodes@, b as int, e as int),
            e == self.subtree_end_spec(b as int),
    {
        let n = self.nodes.len();
        let mut e: usize = b + 1;
        while e < self.nodes.len()
            invariant
                b < e <= self.nodes@.len(),
                forall|j: int|
                    b < j < e ==> (#[trigger] self.nodes@[j]).parent is Some && b
                        <= self.nodes@[j].parent->0,
            decreases self.nodes@.len() - e,
        {
            match self.nodes[e].parent {
                Some(p) => {
                    if p < b {
                        proof {
                            assert(subtree_range(self.nodes@, b as int, e as int));
                            let c = choose|c: int| subtree_range(self.nodes@, b as int, c);
                            lemma_subtree_range_unique(self.nodes@, b as int, c, e as int);
                        }
                        return e;
                    }
                },
                None => {
                    proof {
                        assert(subtree_range(self.nodes@, b as int, e as int));
                            let c = choose|c: int| subtree_range(self.nodes@, b as int, c);
                        lemma_subtree_range_unique(self.nodes@, b as int, c, e as int);
                    }
                    return e;
                },
            }
            e = e + 1;
        }
        proof {
            assert(subtree_range(self.nodes@, b as int, e as int));
                            let c = choose|c: int| subtree_range(self.nodes@, b as int, c);
            lemma_subtree_range_unique(self.nodes@, b as int, c, e as int);
        }
        e
    }

    /// The first node whose tag is `body` is the one `find_body_spec` names.
    proof fn lemma_find_body(&self, b: int)
        requires
            0 <= b < self.nodes@.len(),
            is_body(self.nodes@[b]),
            forall|j: int| 0 <= j < b ==> !is_body(#[trigger] self.nodes@[j]),
        ensures
            self.find_body_spec() == Some(b),
    {
        let c = choose|c: int|
            0 <= c < self.nodes@.len() && is_body(self.nodes@[c]) && forall|j: int|
                0 <= j < c ==> !is_body(#[trigger] self.nodes@[j]);
        if c < b {
            assert(!is_body(self.nodes@[c]));
        } else if b < c {
            assert(!is_body(self.nodes@[b]));
        }
    }
}

/// The sizes after the top-down step over the nodes after `b` up to `e`: each takes
/// its specified size resolved against its parent's, and its flex basis.
pub open spec fn down_rel(
    ns: Seq<RenderNode>,
    before: Seq<SpaceSize>,
    after: Seq<SpaceSize>,
    b: int,
    e: int,
) -> bool {
    &&& after.len() == before.len()
    &&& forall|j: int| 0 <= j < before.len() && !(b < j < e) ==> #[trigger] after[j] == before[j]
    &&& forall|j: int|
        b < j < e ==> #[trigger] after[j] == size_from_parent(
            before[j],
            ns[j].specified_style,
            after[ns[j].parent->0 as int],
            ns[ns[j].parent->0 as int].specified_style,
        )
}

/// Top-down step over the nodes after `b` up to `e`, on the sizes `sizes` (one per node).
pub fn calculate_size_by_parent(nodes: &Vec<RenderNode>, sizes: &mut Vec<SpaceSize>, b: usize, e: usize)
    requires
        wf_nodes(nodes@),
        subtree_range(nodes@, b as int, e as int),
        old(sizes)@.len() == nodes@.len(),
    ensures
        down_rel(nodes@, old(sizes)@, final(sizes)@, b as int, e as int),
{
    let mut j: usize = b + 1;
    while j < e
        invariant
            b < j <= e,
            wf_nodes(nodes@),
            subtree_range(nodes@, b as int, e as int),
            sizes@.len() == nodes@.len(),
            forall|i: int|
                0 <= i < sizes@.len() && !(b < i < j) ==> #[trigger] sizes@[i] == old(sizes)@[i],
            forall|i: int|
                b < i < j ==> #[trigger] sizes@[i] == size_from_parent(
                    old(sizes)@[i],
                    nodes@[i].specified_style,
                    sizes@[nodes@[i].parent->0 as int],
                    nodes@[nodes@[i].parent->0 as int].specified_style,
                ),
        decreases e - j,
    {
        assert(nodes@[j as int].parent is Some);
        let p = match nodes[j].parent {
            Some(p) => p,
            None => 0,
        };
        let parent_size = sizes[p];
        let parent_style = &nodes[p].specified_style;
        let own = &nodes[j].specified_style;
        let mut size = sizes[j];
        size.assign_priority(resolve_size(&own.size, &parent_size));
        match parent_style.display {
            Display::Flex => {
                let basis = resolve_size(
                    &own.flex_basis.to_space_size(&parent_style.flex_direction),
                    &parent_size,
                );
                if !own.size.x.is_length() {
                    size.x.assign_priority(basis.x);
                }
                if !own.size.y.is_length() {
                    size.y.assign_priority(basis.y);
                }
                if !own.size.z.is_length() {
                    size.z.assign_priority(basis.z);
                }
            },
            Display::Cube => {},
        }
        let ghost before = sizes@;
        sizes.set(j, size);
        assert forall|i: int| b < i < j + 1 implies #[trigger] sizes@[i] == size_from_parent(
            old(sizes)@[i],
            nodes@[i].specified_style,
            sizes@[nodes@[i].parent->0 as int],
            nodes@[nodes@[i].parent->0 as int].specified_style,
        ) by {
            if i < j {
                let q = nodes@[i].parent->0 as int;
                assert(q < i);
                assert(sizes@[q] == before[q]);
            }
        }
        j = j + 1;
    }
}

/// The sizes after the bottom-up step over the nodes `b` up to `e`, when it succeeds.
pub open spec fn up_rel(
    ns: Seq<RenderNode>,
    pkg: Package,
    before: Seq<SpaceSize>,
    after: Seq<SpaceSize>,
    b: int,
    e: int,
) -> bool {
    &&& after.len() == before.len()
    &&& forall|j: int| 0 <= j < before.len() && !(b <= j < e) ==> #[trigger] after[j] == before[j]
    &&& forall|j: int|
        b <= j < e ==> up_ok(ns[j], before[j], pkg) && #[trigger] after[j] == size_from_children(
            ns[j],
            before[j],
            kid_sizes(ns, after, j),
            pkg,
        )
}

/// Whenever the bottom-up step succeeds, every cube space it covered has a size with no
/// `auto` axis, and that size is the one it had before the step: a cube never infers.
pub proof fn lemma_cube_strict(
    ns: Seq<RenderNode>,
    pkg: Package,
    before: Seq<SpaceSize>,
    after: Seq<SpaceSize>,
    b: int,
    e: int,
    j: int,
)
    requires
        up_rel(ns, pkg, before, after, b, e),
        b <= j < e,
        ns[j].node_type is Space,
        ns[j].specified_style.display is Cube,
    ensures
        !after[j].any_auto(),
        after[j] == before[j],
{
    assert(up_ok(ns[j], before[j], pkg) && after[j] == size_from_children(
        ns[j],
        before[j],
        kid_sizes(ns, after, j),
        pkg,
    ));
}

/// Bottom-up step over the nodes `b` up to `e`, children before their parent: items
/// take their catalogue box, flex spaces grow to hold their children, and a cube with an
/// `auto` axis fails.
pub fn calculate_size_by_child(
    nodes: &Vec<RenderNode>,
    package: &Package,
    sizes: &mut Vec<SpaceSize>,
    b: usize,
    e: usize,
) -> (r: Result<(), RsmlError>)
    requires
        wf_nodes(nodes@),
        subtree_range(nodes@, b as int, e as int),
        old(sizes)@.len() == nodes@.len(),
    ensures
        final(sizes)@.len() == old(sizes)@.len(),
        r is Ok ==> up_rel(nodes@, *package, old(sizes)@, final(sizes)@, b as int, e as int),
        r is Err ==> exists|j: int|
            b <= j < e && !up_ok(nodes@[j], old(sizes)@[j], *package) && r == Err::<(), RsmlError>(
                up_error(nodes@[j]),
            ),
{
    let mut j: usize = e;
    while j > b
        invariant
            b <= j <= e,
            wf_nodes(nodes@),
            subtree_range(nodes@, b as int, e as int),
            sizes@.len() == nodes@.len(),
            old(sizes)@.len() == nodes@.len(),
            forall|i: int|
                0 <= i < sizes@.len() && !(j <= i < e) ==> #[trigger] sizes@[i] == old(sizes)@[i],
            forall|i: int|
                j <= i < e ==> up_ok(nodes@[i], old(sizes)@[i], *package) && #[trigger] sizes@[i]
                    == size_from_children(nodes@[i], old(sizes)@[i], kid_sizes(nodes@, sizes@, i), *package),
        decreases j,
    {
        let i = j - 1;
        let node = &nodes[i];
        let cur = sizes[i];
        let next: SpaceSize = match node.node_type {
            RenderNodeType::Item => match package.get_space_size(node.text_content.as_str()) {
                Some(d) => SpaceSize::from_dim3_length(d),
                None => {
                    assert(!up_ok(nodes@[i as int], old(sizes)@[i as int], *package));
                    return Err(RsmlError::MissingCatalogueEntry);
                },
            },
            RenderNodeType::Space => match node.specified_style.display {
                Display::Cube => {
                    if cur.has_auto() {
                        assert(!up_ok(nodes@[i as int], old(sizes)@[i as int], *package));
                        return Err(RsmlError::CubeSizeError);
                    }
                    cur
                },
                Display::Flex => {
                    if cur.all_length() {
                        cur
                    } else {
                        let mut kids: Vec<SpaceSize> = Vec::new();
                        let mut k: usize = 0;
                        while k < node.children.len()
                            invariant
                                wf_nodes(nodes@),
                                i < nodes@.len(),
                                *node == nodes@[i as int],
                                sizes@.len() == nodes@.len(),
                                k <= node.children@.len(),
                                kids@ == kid_sizes(nodes@, sizes@, i as int).take(k as int),
                            decreases node.children@.len() - k,
                        {
                            let c = node.children[k];
                            kids.push(sizes[c]);
                            k = k + 1;
                            assert(kids@ =~= kid_sizes(nodes@, sizes@, i as int).take(k as int));
                        }
                        assert(kids@ =~= kid_sizes(nodes@, sizes@, i as int));
                        let grown = cal_flex_child_size(
                            SpaceSize::zero(),
                            &kids,
                            node.specified_style.flex_direction.main_axis(),
                        );
                        SpaceSize {
                            x: if cur.x.is_length() {
                                cur.x
                            } else {
                                grown.x
                            },
                            y: if cur.y.is_length() {
                                cur.y
                            } else {
                                grown.y
                            },
                            z: if cur.z.is_length() {
                                cur.z
                            } else {
                                grown.z
                            },
                        }
                    }
                },
            },
        };
        let ghost before = sizes@;
        sizes.set(i, next);
        assert forall|t: int| j - 1 <= t < e implies up_ok(nodes@[t], old(sizes)@[t], *package)
            && #[trigger] sizes@[t] == size_from_children(
            nodes@[t],
            old(sizes)@[t],
            kid_sizes(nodes@, sizes@, t),
            *package,
        ) by {
            assert(kid_sizes(nodes@, sizes@, t) =~= kid_sizes(nodes@, before, t));
        }
        j = i;
    }
    Ok(())
}

pub open spec fn lengths_of(s: SpaceSize) -> Dim3<Length> {
    Dim3 { x: s.x->Length_0, y: s.y->Length_0, z: s.z->Length_0 }
}

pub open spec fn axis_len(d: Dim3<Length>, a: Axis) -> Length {
    match a {
        Axis::X => d.x,
        Axis::Y => d.y,
        Axis::Z => d.z,
    }
}

/// The lengths of the children of node `j`, in child order.
pub open spec fn kid_dims(ns: Seq<RenderNode>, sizes: Seq<SpaceSize>, j: int) -> Seq<Dim3<Length>> {
    ns[j].children@.map_values(|c: usize| lengths_of(sizes[c as int]))
}

pub open spec fn main_extents(kids: Seq<Dim3<Length>>, a: Axis) -> Seq<u32> {
    kids.map_values(|d: Dim3<Length>| axis_len(d, a).0)
}

/// Sum of the extents, saturating at `u32::MAX`.
pub open spec fn sat_sum(s: Seq<u32>) -> u32
    decreases s.len(),
{
    if s.len() == 0 {
        0
    } else {
        sat(sat_sum(s.drop_last()) + s.last())
    }
}

/// The offset of child `k` inside a flex container of lengths `node` whose children
/// have lengths `kids`: along the main axis by `justify-content` (in reverse order for
/// a reverse direction), across by `align-items`.
pub open spec fn child_offset(node: Dim3<Length>, kids: Seq<Dim3<Length>>, k: int, st: Style) -> Dim3<
    Length,
> {
    let dir = st.flex_direction;
    let a = dir.axis();
    let n = kids.len() as int;
    let ext = main_extents(kids, a);
    let free = axis_len(node, a).0 - sat_sum(ext);
    let idx = if dir.reversed() {
        n - 1 - k
    } else {
        k
    };
    let m = Length(main_offset(free, ext, idx, st.justify_content));
    let c1 = st.align_items.cross1;
    let c2 = st.align_items.cross2;
    match a {
        Axis::X => Dim3 {
            x: m,
            y: cross_offset(node.y, kids[k].y, c1),
            z: cross_offset(node.z, kids[k].z, c2),
        },
        Axis::Y => Dim3 {
            x: cross_offset(node.x, kids[k].x, c1),
            y: m,
            z: cross_offset(node.z, kids[k].z, c2),
        },
        Axis::Z => Dim3 {
            x: cross_offset(node.x, kids[k].x, c1),
            y: cross_offset(node.y, kids[k].y, c2),
            z: m,
        },
    }
}

/// Whether node `j` can place its children: it is a flex container and it and all its
/// children have a length on every axis.
pub open spec fn pos_ok(ns: Seq<RenderNode>, sizes: Seq<SpaceSize>, j: int) -> bool {
    &&& ns[j].specified_style.display is Flex
    &&& sizes[j].all_len()
    &&& forall|k: int|
        0 <= k < ns[j].children@.len() ==> (#[trigger] sizes[ns[j].children@[k] as int]).all_len()
}

pub open spec fn pos_error(ns: Seq<RenderNode>, j: int) -> RsmlError {
    if ns[j].specified_style.display is Cube {
        RsmlError::UnsupportedDisplay
    } else {
        RsmlError::UnresolvedSize
    }
}

/// The children of node `j` sit where `child_offset` puts them.
pub open spec fn placed(ns: Seq<RenderNode>, sizes: Seq<SpaceSize>, pos: Seq<Dim3<Length>>, j: int) -> bool {
    forall|k: int|
        0 <= k < ns[j].children@.len() ==> #[trigger] pos[ns[j].children@[k] as int] == child_offset(
            lengths_of(sizes[j]),
            kid_dims(ns, sizes, j),
            k,
            ns[j].specified_style,
        )
}

fn axis_of(d: &Dim3<Length>, a: Axis) -> (r: Length)
    ensures
        r == axis_len(*d, a),
{
    match a {
        Axis::X => d.x,
        Axis::Y => d.y,
        Axis::Z => d.z,
    }
}

/// Places the children of node `j` inside it, writing one offset per child into `pos`.
pub fn calculate_flex_child_positions(
    nodes: &Vec<RenderNode>,
    sizes: &Vec<SpaceSize>,
    pos: &mut Vec<Dim3<Length>>,
    j: usize,
) -> (r: Result<(), RsmlError>)
    requires
        wf_nodes(nodes@),
        j < nodes@.len(),
        sizes@.len() == nodes@.len(),
        old(pos)@.len() == nodes@.len(),
        nodes@[j as int].specified_style.display is Flex,
    ensures
        final(pos)@.len() == old(pos)@.len(),
        r is Ok <==> pos_ok(nodes@, sizes@, j as int),
        r is Err ==> r == Err::<(), RsmlError>(RsmlError::UnresolvedSize),
        r is Ok ==> placed(nodes@, sizes@, final(pos)@, j as int),
        forall|i: int|
            0 <= i < old(pos)@.len() && (r is Err || nodes@[i].parent != Some(j)) ==> #[trigger] final(
            pos)@[i] == old(pos)@[i],
{
    let node = &nodes[j];
    let st = node.specified_style;
    let node_len = match sizes[j].get_length() {
        Some(d) => d,
        None => {
            return Err(RsmlError::UnresolvedSize);
        },
    };
    let n = node.children.len();
    let mut kids: Vec<Dim3<Length>> = Vec::new();
    let mut k: usize = 0;
    while k < n
        invariant
            wf_nodes(nodes@),
            j < nodes@.len(),
            *node == nodes@[j as int],
            n == node.children@.len(),
            sizes@.len() == nodes@.len(),
            k <= n,
            kids@ == kid_dims(nodes@, sizes@, j as int).take(k as int),
            forall|t: int| 0 <= t < k ==> (#[trigger] sizes@[node.children@[t] as int]).all_len(),
        decreases n - k,
    {
        let c = node.children[k];
        match sizes[c].get_length() {
            Some(d) => kids.push(d),
            None => {
                return Err(RsmlError::UnresolvedSize);
            },
        }
        k = k + 1;
        assert(kids@ =~= kid_dims(nodes@, sizes@, j as int).take(k as int));
    }
    assert(kids@ =~= kid_dims(nodes@, sizes@, j as int));
    let dir = st.flex_direction;
    let a = dir.main_axis();
    let mut ext: Vec<u32> = Vec::new();
    let mut total: u32 = 0;
    let mut k: usize = 0;
    while k < n
        invariant
            n == kids@.len(),
            k <= n,
            ext@ == main_extents(kids@, a).take(k as int),
            total == sat_sum(ext@),
        decreases n - k,
    {
        let v = axis_of(&kids[k], a).0;
        let ghost prev = ext@;
        ext.push(v);
        assert(ext@.drop_last() =~= prev);
        total = if total > u32::MAX - v {
            u32::MAX
        } else {
            total + v
        };
        k = k + 1;
        assert(ext@ =~= main_extents(kids@, a).take(k as int));
    }
    assert(ext@ =~= main_extents(kids@, a));
    let free: i64 = axis_of(&node_len, a).0 as i64 - total as i64;
    let offsets = calculate_positions_on_axis(free, &ext, st.justify_content);
    let rev = dir.is_reverse();
    let mut k: usize = 0;
    while k < n
        invariant
            wf_nodes(nodes@),
            j < nodes@.len(),
            *node == nodes@[j as int],
            n == node.children@.len(),
            n == kids@.len(),
            n == offsets@.len(),
            sizes@.len() == nodes@.len(),
            pos@.len() == nodes@.len(),
            old(pos)@.len() == nodes@.len(),
            st == node.specified_style,
            kids@ == kid_dims(nodes@, sizes@, j as int),
            node_len == lengths_of(sizes@[j as int]),
            sizes@[j as int].all_len(),
            a == dir.axis(),
            dir == st.flex_direction,
            rev == dir.reversed(),
            free == axis_len(node_len, a).0 - sat_sum(main_extents(kids@, a)),
            ext@ == main_extents(kids@, a),
            forall|t: int|
                0 <= t < n ==> #[trigger] offsets@[t] == main_offset(free as int, ext@, t, st.justify_content),
            forall|t: int| 0 <= t < k ==> #[trigger] pos@[node.children@[t] as int] == child_offset(
                node_len,
                kids@,
                t,
                st,
            ),
            forall|i: int|
                0 <= i < pos@.len() && nodes@[i].parent != Some(j) ==> #[trigger] pos@[i] == old(pos)@[i],
        decreases n - k,
    {
        let idx = if rev {
            n - 1 - k
        } else {
            k
        };
        let m = Length(offsets[idx]);
        let d = kids[k];
        let c1 = st.align_items.cross1;
        let c2 = st.align_items.cross2;
        let p = match a {
            Axis::X => Dim3 {
                x: m,
                y: align_offset(node_len.y, d.y, c1),
                z: align_offset(node_len.z, d.z, c2),
            },
            Axis::Y => Dim3 {
                x: align_offset(node_len.x, d.x, c1),
                y: m,
                z: align_offset(node_len.z, d.z, c2),
            },
            Axis::Z => Dim3 {
                x: align_offset(node_len.x, d.x, c1),
                y: align_offset(node_len.y, d.y, c2),
                z: m,
            },
        };
        let c = node.children[k];
        let ghost before = pos@;
        pos.set(c, p);
        assert forall|t: int| 0 <= t < k + 1 implies #[trigger] pos@[node.children@[t] as int]
            == child_offset(node_len, kids@, t, st) by {
            if t < k {
                assert(node.children@[t] < node.children@[k as int]);
            }
        }
        k = k + 1;
    }
    Ok(())
}

/// The offsets after the placement step over the nodes `b` up to `e`, when it succeeds.
pub open spec fn pos_rel(
    ns: Seq<RenderNode>,
    sizes: Seq<SpaceSize>,
    before: Seq<Dim3<Length>>,
    after: Seq<Dim3<Length>>,
    b: int,
    e: int,
) -> bool {
    &&& after.len() == before.len()
    &&& forall|j: int| b <= j < e ==> #[trigger] pos_ok(ns, sizes, j) && placed(ns, sizes, after, j)
    &&& forall|i: int|
        0 <= i < before.len() && !(ns[i].parent is Some && b <= ns[i].parent->0 < e)
            ==> #[trigger] after[i] == before[i]
}

/// Placement step over the nodes `b` up to `e`: every flex container places its children.
pub fn calculate_pos(
    nodes: &Vec<RenderNode>,
    sizes: &Vec<SpaceSize>,
    pos: &mut Vec<Dim3<Length>>,
    b: usize,
    e: usize,
) -> (r: Result<(), RsmlError>)
    requires
        wf_nodes(nodes@),
        b < e <= nodes@.len(),
        sizes@.len() == nodes@.len(),
        old(pos)@.len() == nodes@.len(),
    ensures
        final(pos)@.len() == old(pos)@.len(),
        r is Ok ==> pos_rel(nodes@, sizes@, old(pos)@, final(pos)@, b as int, e as int),
        r is Err ==> exists|j: int|
            b <= j < e && !pos_ok(nodes@, sizes@, j) && r == Err::<(), RsmlError>(
                pos_error(nodes@, j),
            ),
{
    let mut j: usize = b;
    while j < e
        invariant
            b <= j <= e <= nodes@.len(),
            wf_nodes(nodes@),
            sizes@.len() == nodes@.len(),
            pos@.len() == nodes@.len(),
            old(pos)@.len() == nodes@.len(),
            forall|t: int| b <= t < j ==> #[trigger] pos_ok(nodes@, sizes@, t) && placed(nodes@, sizes@, pos@, t),
            forall|i: int|
                0 <= i < pos@.len() && !(nodes@[i].parent is Some && b <= nodes@[i].parent->0 < j)
                    ==> #[trigger] pos@[i] == old(pos)@[i],
        decreases e - j,
    {
        match nodes[j].specified_style.display {
            Display::Cube => {
                assert(!pos_ok(nodes@, sizes@, j as int));
                assert(pos_error(nodes@, j as int) == RsmlError::UnsupportedDisplay);
                return Err(RsmlError::UnsupportedDisplay);
            },
            Display::Flex => {},
        }
        let ghost before = pos@;
        assert forall|t: int| b <= t < j implies placed(nodes@, sizes@, before, t) by {
            assert(pos_ok(nodes@, sizes@, t));
        }
        match calculate_flex_child_positions(nodes, sizes, pos, j) {
            Ok(()) => {},
            Err(err) => {
                assert(pos_error(nodes@, j as int) == RsmlError::UnresolvedSize);
                return Err(err);
            },
        }
        assert forall|t: int| b <= t < j + 1 implies #[trigger] pos_ok(nodes@, sizes@, t) && placed(
            nodes@,
            sizes@,
            pos@,
            t,
        ) by {
            if t < j {
                assert(placed(nodes@, sizes@, before, t));
                assert forall|k: int| 0 <= k < nodes@[t].children@.len() implies #[trigger] pos@[nodes@[t].children@[k] as int]
                    == child_offset(
                    lengths_of(sizes@[t]),
                    kid_dims(nodes@, sizes@, t),
                    k,
                    nodes@[t].specified_style,
                ) by {
                    let c = nodes@[t].children@[k] as int;
                    assert(nodes@[c].parent == Some(t as usize));
                    assert(pos@[c] == before[c]);
                }
            }
        }
        j = j + 1;
    }
    Ok(())
}

/// The offsets that node `i` gave its children, in child order.
pub open spec fn child_spaces(ns: Seq<RenderNode>, pos: Seq<Dim3<Length>>, i: int) -> Seq<
    AbsoluteSpace,
> {
    ns[i].children@.map_values(|c: usize| AbsoluteSpace { pos: pos[c as int] })
}

/// The body's fixed size, 100 m on each axis.
pub open spec fn scene_size() -> SpaceSize {
    length_size(Dim3 { x: Length(100000), y: Length(100000), z: Length(100000) })
}

/// The computed sizes of all nodes.
pub open spec fn sizes_of(ns: Seq<RenderNode>) -> Seq<SpaceSize> {
    ns.map_values(|n: RenderNode| n.computed_style.size)
}

/// The offsets of all nodes.
pub open spec fn offsets_of(ns: Seq<RenderNode>) -> Seq<Dim3<Length>> {
    ns.map_values(|n: RenderNode| n.attr.absolute_pos)
}

proof fn lemma_subtree_range_unique(ns: Seq<RenderNode>, b: int, e1: int, e2: int)
    requires
        subtree_range(ns, b, e1),
        subtree_range(ns, b, e2),
    ensures
        e1 == e2,
{
    if e1 < e2 {
        assert(ns[e1].parent is Some && b <= ns[e1].parent->0);
    } else if e2 < e1 {
        assert(ns[e2].parent is Some && b <= ns[e2].parent->0);
    }
}

/// `b` holds the same nodes as `a` apart from computed styles and layout attributes.
pub open spec fn same_nodes(a: Seq<RenderNode>, b: Seq<RenderNode>) -> bool {
    &&& a.len() == b.len()
    &&& forall|i: int|
        0 <= i < a.len() ==> (#[trigger] b[i]).parent == a[i].parent && b[i].children
            == a[i].children && b[i].specified_style == a[i].specified_style && b[i].node_type
            == a[i].node_type && b[i].tag_name == a[i].tag_name && b[i].text_content
            == a[i].text_content && b[i].id == a[i].id
}

/// The sizes and offsets that the full layout of the subtree `b`..`e` produces from
/// the sizes `s0` and offsets `p0`: top-down, bottom-up, top-down again, then placement.
#[verifier::opaque]
pub open spec fn layout_rel(
    ns: Seq<RenderNode>,
    pkg: Package,
    b: int,
    e: int,
    s0: Seq<SpaceSize>,
    p0: Seq<Dim3<Length>>,
    s3: Seq<SpaceSize>,
    p: Seq<Dim3<Length>>,
) -> bool {
    exists|s1: Seq<SpaceSize>, s2: Seq<SpaceSize>|
        down_rel(ns, s0, s1, b, e) && up_rel(ns, pkg, s1, s2, b, e) && down_rel(ns, s2, s3, b, e)
            && pos_rel(ns, s3, p0, p, b, e)
}

/// Whether the full layout of the subtree `b`..`e` fails with `err`: the bottom-up step
/// fails, or placement fails after the sizes were worked out.
#[verifier::opaque]
pub open spec fn layout_fails(
    ns: Seq<RenderNode>,
    pkg: Package,
    b: int,
    e: int,
    s0: Seq<SpaceSize>,
    err: RsmlError,
) -> bool {
    exists|s1: Seq<SpaceSize>|
        down_rel(ns, s0, s1, b, e) && ((exists|j: int|
            b <= j < e && !up_ok(ns[j], s1[j], pkg) && err == up_error(ns[j])) || exists|
            s2: Seq<SpaceSize>,
            s3: Seq<SpaceSize>,
            j: int,
        |
            up_rel(ns, pkg, s1, s2, b, e) && down_rel(ns, s2, s3, b, e) && b <= j < e && !pos_ok(
                ns,
                s3,
                j,
            ) && err == pos_error(ns, j))
}

impl<'a> RenderTree<'a> {
    /// Lays out the subtree of the first `body` node: its size is fixed at 100 m on each
    /// axis, sizes are resolved top-down, bottom-up and top-down again, and every flex
    /// container then places its children. Without a `body` node nothing changes.
    pub fn calculate(&mut self) -> (r: Result<(), RsmlError>)
        requires
            old(self).wf(),
        ensures
            final(self).wf(),
            final(self).root == old(self).root,
            final(self).package == old(self).package,
            same_nodes(old(self).nodes@, final(self).nodes@),
            match old(self).find_body_spec() {
                None => r is Ok && final(self).nodes@ == old(self).nodes@,
                Some(b) => {
                    let ns = old(self).nodes@;
                    let e = old(self).subtree_end_spec(b);
                    let s0 = sizes_of(ns).update(b, scene_size());
                    &&& r is Ok ==> layout_rel(
                        ns,
                        *old(self).package,
                        b,
                        e,
                        s0,
                        offsets_of(ns),
                        sizes_of(final(self).nodes@),
                        offsets_of(final(self).nodes@),
                    )
                    &&& r is Ok ==> forall|t: int|
                        b <= t < e ==> (#[trigger] final(self).nodes@[t]).attr.flex_child_space@
                            == child_spaces(ns, offsets_of(final(self).nodes@), t)
                    &&& r is Err ==> layout_fails(ns, *old(self).package, b, e, s0, r->Err_0)
                },
            },
    {
        let b = match self.find_body_node() {
            Some(b) => b,
            None => {
                return Ok(());
            },
        };
        let e = self.subtree_end(b);
        let ghost ns = self.nodes@;
        let n = self.nodes.len();
        let mut sizes: Vec<SpaceSize> = Vec::new();
        let mut pos: Vec<Dim3<Length>> = Vec::new();
        let mut i: usize = 0;
        while i < n
            invariant
                n == self.nodes@.len(),
                ns == self.nodes@,
                i <= n,
                sizes@ == sizes_of(ns).take(i as int),
                pos@ == offsets_of(ns).take(i as int),
            decreases n - i,
        {
            sizes.push(self.nodes[i].computed_style.size);
            pos.push(self.nodes[i].attr.absolute_pos);
            i = i + 1;
            assert(sizes@ =~= sizes_of(ns).take(i as int));
            assert(pos@ =~= offsets_of(ns).take(i as int));
        }
        assert(sizes@ =~= sizes_of(ns));
        assert(pos@ =~= offsets_of(ns));
        let hundred = SizeValue::Length(Length(100000));
        sizes.set(b, SpaceSize { x: hundred, y: hundred, z: hundred });
        assert(sizes@ =~= sizes_of(ns).update(b as int, scene_size()));
        let r = compute_layout(&self.nodes, self.package, b, e, &mut sizes, &mut pos);
        if r.is_err() {
            return r;
        }
        self.store_layout(&sizes, &pos, b, e);
        Ok(())
    }

    /// Writes the sizes and offsets into the nodes, and gives each node `b` up to `e`
    /// the list of its children's offsets.
    fn store_layout(&mut self, sizes: &Vec<SpaceSize>, pos: &Vec<Dim3<Length>>, b: usize, e: usize)
        requires
            old(self).wf(),
            sizes@.len() == old(self).nodes@.len(),
            pos@.len() == old(self).nodes@.len(),
        ensures
            forall|t: int|
                0 <= t < old(self).nodes@.len() ==> (b <= t < e ==> (#[trigger] final(self).nodes@[t]).attr.flex_child_space@ == child_spaces(old(self).nodes@, pos@, t))
                    && (!(b <= t < e) ==> final(self).nodes@[t].attr.flex_child_space
                    == old(self).nodes@[t].attr.flex_child_space),
            final(self).wf(),
            final(self).root == old(self).root,
            final(self).package == old(self).package,
            same_nodes(old(self).nodes@, final(self).nodes@),
            sizes_of(final(self).nodes@) == sizes@,
            offsets_of(final(self).nodes@) == pos@,
    {
        let ghost ns = self.nodes@;
        let n = self.nodes.len();
        let mut i: usize = 0;
        while i < n
            invariant
                n == self.nodes@.len(),
                ns.len() == n,
                wf_nodes(ns),
                i <= n,
                sizes@.len() == n,
                pos@.len() == n,
                same_nodes(ns, self.nodes@),
                self.root == old(self).root,
                self.package == old(self).package,
                ns == old(self).nodes@,
                forall|t: int| 0 <= t < i ==> (#[trigger] self.nodes@[t]).computed_style.size == sizes@[t]
                    && self.nodes@[t].attr.absolute_pos == pos@[t],
                forall|t: int|
                    0 <= t < i ==> (b <= t < e ==> (#[trigger] self.nodes@[t]).attr.flex_child_space@
                        == child_spaces(ns, pos@, t)) && (!(b <= t < e)
                        ==> self.nodes@[t].attr.flex_child_space == ns[t].attr.flex_child_space),
                forall|t: int|
                    i <= t < n ==> (#[trigger] self.nodes@[t]).computed_style == ns[t].computed_style
                        && self.nodes@[t].attr == ns[t].attr,
            decreases n - i,
        {
            if b <= i && i < e {
                let mut spaces: Vec<AbsoluteSpace> = Vec::new();
                let m = self.nodes[i].children.len();
                let mut k: usize = 0;
                while k < m
                    invariant
                        n == self.nodes@.len(),
                        ns.len() == n,
                        wf_nodes(ns),
                        i < n,
                        pos@.len() == n,
                        same_nodes(ns, self.nodes@),
                        m == ns[i as int].children@.len(),
                        k <= m,
                        spaces@ == child_spaces(ns, pos@, i as int).take(k as int),
                    decreases m - k,
                {
                    assert(self.nodes@[i as int].children == ns[i as int].children);
                    let c = self.nodes[i].children[k];
                    spaces.push(AbsoluteSpace { pos: pos[c] });
                    k = k + 1;
                    assert(spaces@ =~= child_spaces(ns, pos@, i as int).take(k as int));
                }
                assert(spaces@ =~= child_spaces(ns, pos@, i as int));
                self.nodes[i].attr.flex_child_space = spaces;
            }
            self.nodes[i].computed_style.size = sizes[i];
            self.nodes[i].attr.absolute_pos = pos[i];
            i = i + 1;
        }
        proof {
            assert(same_nodes(ns, self.nodes@));
            assert(sizes_of(self.nodes@) =~= sizes@);
            assert(offsets_of(self.nodes@) =~= pos@);
            assert forall|a: int| 0 <= a < self.nodes@.len() && (#[trigger] self.nodes@[a].parent) is Some
                implies (self.nodes@[a].parent->0 as int) < a by {
                assert(self.nodes@[a].parent == ns[a].parent);
            }
            assert forall|a: int, k: int|
                0 <= a < self.nodes@.len() && 0 <= k < self.nodes@[a].children@.len() implies a
                < #[trigger] self.nodes@[a].children@[k] < self.nodes@.len()
                && self.nodes@[self.nodes@[a].children@[k] as int].parent == Some(a as usize) by {
                assert(self.nodes@[a].children == ns[a].children);
                assert(ns[a].children@[k] < ns.len());
                assert(self.nodes@[ns[a].children@[k] as int].parent == ns[ns[a].children@[k] as int].parent);
            }
            assert forall|a: int, k1: int, k2: int|
                0 <= a < self.nodes@.len() && 0 <= k1 < k2 < self.nodes@[a].children@.len() implies #[trigger] self.nodes@[a].children@[k1]
                < #[trigger] self.nodes@[a].children@[k2] by {
                assert(self.nodes@[a].children == ns[a].children);
            }
        }
    }
}

/// Runs the full layout of the subtree `b`..`e` on the sizes and offsets.
fn compute_layout(
    nodes: &Vec<RenderNode>,
    package: &Package,
    b: usize,
    e: usize,
    sizes: &mut Vec<SpaceSize>,
    pos: &mut Vec<Dim3<Length>>,
) -> (r: Result<(), RsmlError>)
    requires
        wf_nodes(nodes@),
        subtree_range(nodes@, b as int, e as int),
        old(sizes)@.len() == nodes@.len(),
        old(pos)@.len() == nodes@.len(),
    ensures
        final(sizes)@.len() == nodes@.len(),
        final(pos)@.len() == nodes@.len(),
        r is Ok ==> layout_rel(
            nodes@,
            *package,
            b as int,
            e as int,
            old(sizes)@,
            old(pos)@,
            final(sizes)@,
            final(pos)@,
        ),
        r is Err ==> layout_fails(nodes@, *package, b as int, e as int, old(sizes)@, r->Err_0),
{
    reveal(layout_rel);
    reveal(layout_fails);
    let ghost s0 = sizes@;
    let ghost p0 = pos@;
    calculate_size_by_parent(nodes, sizes, b, e);
    let ghost s1 = sizes@;
    match calculate_size_by_child(nodes, package, sizes, b, e) {
        Ok(()) => {},
        Err(err) => {
            return Err(err);
        },
    }
    let ghost s2 = sizes@;
    calculate_size_by_parent(nodes, sizes, b, e);
    let ghost s3 = sizes@;
    match calculate_pos(nodes, sizes, pos, b, e) {
        Ok(()) => {},
        Err(err) => {
            return Err(err);
        },
    }
    Ok(())
}

} // verus!
