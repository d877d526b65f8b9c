use rsml::base::{Length, Percentage};
use rsml::dim3::Dim3;
use rsml::error::RsmlError;
use rsml::flex::JustifyContent;
use rsml::package::{GeomType, Group, Object, Package, PackageInfo};
use rsml::placement::calculate_positions_on_axis;
use rsml::render_tree::{
    calculate_dimension_size, determine_node_type, NodeAttr, RenderNode, RenderNodeType,
    RenderTree,
};
use rsml::style::{Display, SizeValue, SpaceSize};
use rsml::xml::Element;

fn mm3(x: u32, y: u32, z: u32) -> Dim3<Length> {
    Dim3::new(Length::from_mm(x), Length::from_mm(y), Length::from_mm(z))
}

fn object(size: Dim3<Length>) -> Object {
    Object { geom_type: GeomType::Box, size, path: None }
}

fn catalogue() -> Package {
    Package {
        package: PackageInfo { name: "demo".to_string(), description: "scene parts".to_string() },
        objects: vec![
            ("table_plane".to_string(), object(mm3(1000, 1000, 100))),
            ("box_bottle".to_string(), object(mm3(100, 100, 100))),
            ("a".to_string(), object(mm3(10, 20, 30))),
            ("b".to_string(), object(mm3(5, 25, 40))),
        ],
        groups: vec![Group {
            name: "bottles".to_string(),
            objects: vec![
                ("tall".to_string(), object(mm3(50, 50, 300))),
                ("wide".to_string(), object(mm3(200, 80, 100))),
            ],
        }],
        dependencies: vec![("bottle".to_string(), "assets/bottle".to_string())],
    }
}

fn element(tag: &str, style: &str, text: &str) -> Element {
    let mut e = Element::new(tag.to_string());
    if !style.is_empty() {
        e.set_attribute("style".to_string(), style.to_string());
    }
    e.text = text.to_string();
    e
}

fn len_size(d: Dim3<Length>) -> SpaceSize {
    SpaceSize::from_dim3_length(d)
}

#[test]
fn test_render_node_creation() {
    let node = RenderNode::new("space".to_string(), RenderNodeType::Space);
    assert_eq!(node.tag_name, "space");
    assert_eq!(node.node_type, RenderNodeType::Space);
    assert_eq!(node.id, None);
    assert_eq!(node.text_content, "");
}

#[test]
fn test_render_node_with_id() {
    let mut node = RenderNode::new("object".to_string(), RenderNodeType::Item);
    node.set_id("test-id".to_string());
    assert_eq!(node.id, Some("test-id".to_string()));
}

#[test]
fn test_determine_node_type() {
    assert_eq!(determine_node_type("space"), RenderNodeType::Space);
    assert_eq!(determine_node_type("object"), RenderNodeType::Item);
    assert_eq!(determine_node_type("group"), RenderNodeType::Item);
    assert_eq!(determine_node_type("Object"), RenderNodeType::Item);
}

#[test]
fn test_node_attr_content_size() {
    let mut attr = NodeAttr::default();
    let content_size = Dim3::new(Length::from_cm(10), Length::from_cm(10), Length::from_cm(10));
    attr.absolute_size = content_size;
    assert_eq!(attr.absolute_size, content_size);
}

#[test]
fn build_simple_render_tree_from_elements() {
    let mut root = element("space", "display:flex;size:10m 10m 10m", "");
    root.set_attribute("id".to_string(), "main".to_string());
    root.children.push(element("object", "", "  table_plane \n"));
    let package = catalogue();
    let tree = RenderTree::new(&root, &package).unwrap();
    let node = &tree.nodes[tree.root];
    assert_eq!(node.tag_name, "space");
    assert_eq!(node.id, Some("main".to_string()));
    assert_eq!(node.node_type, RenderNodeType::Space);
    assert_eq!(node.specified_style.size.x, SizeValue::Length(Length::from_m(10)));
    assert_eq!(node.children, vec![1]);
    let item = &tree.nodes[1];
    assert_eq!(item.parent, Some(0));
    assert_eq!(item.node_type, RenderNodeType::Item);
    assert_eq!(item.text_content, "table_plane");
}

#[test]
fn malformed_style_falls_back_to_defaults() {
    let root = element("space", "size:1m 2m", "");
    let package = catalogue();
    let tree = RenderTree::new(&root, &package).unwrap();
    assert_eq!(tree.nodes[0].specified_style, rsml::style::Style::new());
}

#[test]
fn percentage_resolves_against_length_parent_only() {
    let p = SizeValue::Percentage(Percentage::new(50));
    assert_eq!(
        calculate_dimension_size(&p, &SizeValue::Length(Length::from_mm(200))),
        SizeValue::Length(Length::from_mm(100))
    );
    assert_eq!(calculate_dimension_size(&p, &SizeValue::Auto), SizeValue::Auto);
    assert_eq!(
        calculate_dimension_size(&p, &SizeValue::Percentage(Percentage::new(10))),
        SizeValue::Auto
    );
    assert_eq!(
        calculate_dimension_size(&SizeValue::Length(Length::from_mm(7)), &SizeValue::Auto),
        SizeValue::Length(Length::from_mm(7))
    );
    assert_eq!(
        calculate_dimension_size(&SizeValue::Percentage(Percentage::new(33)), &SizeValue::Length(Length::from_mm(10))),
        SizeValue::Length(Length::from_mm(3))
    );
}

#[test]
fn flex_sum_and_max_along_z() {
    let mut body = element("body", "", "");
    let mut space = element("space", "flex-direction:z", "");
    space.children.push(element("object", "", "a"));
    space.children.push(element("object", "", "b"));
    body.children.push(space);
    let package = catalogue();
    let mut tree = RenderTree::new(&body, &package).unwrap();
    assert_eq!(tree.calculate(), Ok(()));
    assert_eq!(tree.nodes[1].computed_style.size, len_size(mm3(10, 25, 70)));
    assert_eq!(tree.nodes[2].computed_style.size, len_size(mm3(10, 20, 30)));
    assert_eq!(tree.nodes[3].computed_style.size, len_size(mm3(5, 25, 40)));
}

#[test]
fn space_between_two_and_one_child() {
    let two = calculate_positions_on_axis(80, &vec![10, 10], JustifyContent::SpaceBetween);
    assert_eq!(two, vec![0, 90]);
    let one_empty = calculate_positions_on_axis(100, &vec![0], JustifyContent::SpaceBetween);
    assert_eq!(one_empty, vec![50]);
    let one = calculate_positions_on_axis(90, &vec![10], JustifyContent::SpaceBetween);
    assert_eq!(one, vec![45]);
}

#[test]
fn justify_content_offsets() {
    let sizes = vec![10, 20, 30];
    assert_eq!(calculate_positions_on_axis(40, &sizes, JustifyContent::FlexStart), vec![0, 10, 30]);
    assert_eq!(calculate_positions_on_axis(40, &sizes, JustifyContent::FlexEnd), vec![40, 50, 70]);
    assert_eq!(calculate_positions_on_axis(40, &sizes, JustifyContent::Center), vec![20, 30, 50]);
    assert_eq!(calculate_positions_on_axis(40, &sizes, JustifyContent::SpaceBetween), vec![0, 30, 70]);
    assert_eq!(calculate_positions_on_axis(60, &sizes, JustifyContent::SpaceAround), vec![10, 40, 80]);
    assert_eq!(calculate_positions_on_axis(40, &sizes, JustifyContent::SpaceEvenly), vec![10, 30, 60]);
    assert_eq!(calculate_positions_on_axis(-20, &sizes, JustifyContent::FlexEnd), vec![0, 0, 10]);
    assert_eq!(calculate_positions_on_axis(10, &vec![], JustifyContent::SpaceAround), Vec::<u32>::new());
}

#[test]
fn cube_with_auto_axis_fails() {
    let mut body = element("body", "", "");
    body.children.push(element("space", "display:cube", ""));
    let package = catalogue();
    let mut tree = RenderTree::new(&body, &package).unwrap();
    assert_eq!(tree.nodes[1].specified_style.display, Display::Cube);
    assert_eq!(tree.calculate(), Err(RsmlError::CubeSizeError));

    let mut body = element("body", "", "");
    body.children.push(element("space", "display:cube;size:1m 50% auto", ""));
    let mut tree = RenderTree::new(&body, &package).unwrap();
    assert_eq!(tree.calculate(), Err(RsmlError::CubeSizeError));
}

#[test]
fn cube_with_full_size_reaches_placement() {
    let mut body = element("body", "", "");
    body.children.push(element("space", "display:cube;size:1m 50% 2cm", ""));
    let package = catalogue();
    let mut tree = RenderTree::new(&body, &package).unwrap();
    assert_eq!(tree.calculate(), Err(RsmlError::UnsupportedDisplay));
}

#[test]
fn unknown_catalogue_name_fails() {
    let mut body = element("body", "", "");
    body.children.push(element("object", "", "no_such_thing"));
    let package = catalogue();
    let mut tree = RenderTree::new(&body, &package).unwrap();
    assert_eq!(tree.calculate(), Err(RsmlError::MissingCatalogueEntry));
}

#[test]
fn group_takes_common_bounding_box() {
    let package = catalogue();
    assert_eq!(package.get_space_size("bottles"), Some(mm3(200, 80, 300)));
    assert_eq!(package.get_space_size("table_plane"), Some(mm3(1000, 1000, 100)));
    assert_eq!(package.get_space_size("nonexistent"), None);
    assert!(package.has_object("a"));
    assert!(!package.has_object("bottles"));
    assert!(package.has_group("bottles"));
    assert!(package.has_dependency("bottle"));
    assert_eq!(package.get_dependency("bottle"), Some(&"assets/bottle".to_string()));
    assert_eq!(package.get_group("bottles").unwrap().space_size(), Some(mm3(200, 80, 300)));
    let empty = Group { name: "none".to_string(), objects: vec![] };
    assert_eq!(empty.space_size(), None);
}

#[test]
fn end_to_end_table_and_bottle() {
    let mut rsml = element("rsml", "", "");
    rsml.children.push(element("head", "", ""));
    let mut body = element("body", "", "");
    let mut space = element("space", "flex-direction:x;justify-content:flex-start", "");
    space.children.push(element("object", "", "table_plane"));
    space.children.push(element("object", "", "box_bottle"));
    body.children.push(space);
    rsml.children.push(body);
    let package = catalogue();
    let mut tree = RenderTree::new(&rsml, &package).unwrap();
    assert_eq!(tree.calculate(), Ok(()));
    let body = 2;
    assert_eq!(tree.nodes[body].tag_name, "body");
    assert_eq!(tree.nodes[body].computed_style.size, len_size(mm3(100000, 100000, 100000)));
    let space = 3;
    assert_eq!(tree.nodes[space].computed_style.size, len_size(mm3(1100, 1000, 100)));
    assert_eq!(tree.nodes[4].attr.absolute_pos, mm3(0, 0, 0));
    assert_eq!(tree.nodes[5].attr.absolute_pos, mm3(1000, 0, 0));
    assert_eq!(tree.nodes[space].attr.absolute_pos, mm3(0, 0, 0));
    // nodes outside the body are left alone
    assert_eq!(tree.nodes[1].computed_style.size, SpaceSize::default());
}

#[test]
fn reverse_direction_and_alignment() {
    let mut body = element("body", "", "");
    let mut space = element(
        "space",
        "flex-direction:y-reverse;size:1m 1m 1m;align-items:center flex-end",
        "",
    );
    space.children.push(element("object", "", "a"));
    space.children.push(element("object", "", "b"));
    body.children.push(space);
    let package = catalogue();
    let mut tree = RenderTree::new(&body, &package).unwrap();
    assert_eq!(tree.calculate(), Ok(()));
    // main axis y: extents 20 and 25, offsets 0 and 20, handed out in reverse
    assert_eq!(tree.nodes[2].attr.absolute_pos, mm3(495, 20, 970));
    assert_eq!(tree.nodes[3].attr.absolute_pos, mm3(497, 0, 960));
}

#[test]
fn percentage_child_resolves_after_parent_grows() {
    let mut body = element("body", "", "");
    let mut space = element("space", "flex-direction:x", "");
    space.children.push(element("object", "", "a"));
    let mut inner = element("space", "size:50% 50% 50%;display:flex", "");
    inner.children.push(element("object", "", "b"));
    space.children.push(inner);
    body.children.push(space);
    let package = catalogue();
    let mut tree = RenderTree::new(&body, &package).unwrap();
    assert_eq!(tree.calculate(), Ok(()));
    // the inner space grows from its child while its parent is unknown, the parent
    // grows from both children, and the second top-down pass resolves the inner
    // percentages against it
    assert_eq!(tree.nodes[1].computed_style.size, len_size(mm3(15, 25, 40)));
    assert_eq!(tree.nodes[3].computed_style.size, len_size(mm3(7, 12, 20)));
}

#[test]
fn flex_basis_does_not_override_explicit_length() {
    let mut body = element("body", "", "");
    let mut space = element("space", "flex-direction:x;size:1m 1m 1m", "");
    let mut child = element("space", "size:500mm auto auto;flex-basis:200mm", "");
    child.children.push(element("object", "", "a"));
    space.children.push(child);
    let mut other = element("space", "flex-basis:300mm", "");
    other.children.push(element("object", "", "b"));
    space.children.push(other);
    body.children.push(space);
    let package = catalogue();
    let mut tree = RenderTree::new(&body, &package).unwrap();
    assert_eq!(tree.calculate(), Ok(()));
    assert_eq!(tree.nodes[2].computed_style.size, len_size(mm3(500, 20, 30)));
    assert_eq!(tree.nodes[4].computed_style.size, len_size(mm3(300, 25, 40)));
}

#[test]
fn percentage_basis_resolves_against_parent() {
    let mut body = element("body", "", "");
    let mut space = element("space", "flex-direction:y;size:1m 400mm 1m", "");
    space.children.push(element("space", "flex-basis:25%", ""));
    body.children.push(space);
    let package = catalogue();
    let mut tree = RenderTree::new(&body, &package).unwrap();
    assert_eq!(tree.calculate(), Ok(()));
    assert_eq!(tree.nodes[2].computed_style.size, len_size(mm3(0, 100, 0)));
}

#[test]
fn explicit_size_wins_over_children() {
    let mut body = element("body", "", "");
    let mut space = element("space", "flex-direction:x;size:500mm auto auto", "");
    space.children.push(element("object", "", "box_bottle"));
    body.children.push(space);
    let package = catalogue();
    let mut tree = RenderTree::new(&body, &package).unwrap();
    assert_eq!(tree.calculate(), Ok(()));
    assert_eq!(tree.nodes[1].computed_style.size, len_size(mm3(500, 100, 100)));
}

#[test]
fn built_nodes_start_with_auto_sizes() {
    let mut body = element("body", "", "");
    body.children.push(element("space", "size:1m 2m 3m", ""));
    let package = catalogue();
    let tree = RenderTree::new(&body, &package).unwrap();
    for node in &tree.nodes {
        assert_eq!(node.computed_style.size, SpaceSize::default());
    }
}

#[test]
fn containers_record_child_offsets() {
    let mut body = element("body", "", "");
    let mut space = element("space", "flex-direction:x", "");
    space.children.push(element("object", "", "table_plane"));
    space.children.push(element("object", "", "box_bottle"));
    body.children.push(space);
    let package = catalogue();
    let mut tree = RenderTree::new(&body, &package).unwrap();
    assert_eq!(tree.calculate(), Ok(()));
    let spaces: Vec<Dim3<Length>> =
        tree.nodes[1].attr.flex_child_space.iter().map(|s| s.pos).collect();
    assert_eq!(spaces, vec![mm3(0, 0, 0), mm3(1000, 0, 0)]);
    assert_eq!(tree.nodes[0].attr.flex_child_space.len(), 1);
    assert!(tree.nodes[2].attr.flex_child_space.is_empty());
}
