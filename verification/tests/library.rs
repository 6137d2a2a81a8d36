use euv::cache::LruCache;
use euv::diff::{diff_children, diff_keyed, diff_positional, DiffOp};
use euv::fmt::source::{
    format_euv_macros, format_macro_body, format_source, try_format_euv_macros,
    try_format_macro_body,
};
use euv::input::{ClientDelta, ClientPoint, Input, InputEvent, InputState, MouseButton};
use euv::kinds::{LightType, MaterialKind, OccluderKind};
use euv::particle::{spawn_budget, ParticleRng};
use euv::router::{route_page, Page};
use euv::signal_addrs::SignalAddrs;
use euv::spatial::{CellRange2D, CellRange3D, SpatialHashGrid2D, SpatialHashGrid3D};
use euv::vdom::{
    visually_equal, AttributeEntry, AttributeValue, DynamicNode, Tag, TextNode, VirtualNode,
};
use euv::webgl::{auto_rotate_label, pause_label, webgl_status_text};
use std::collections::HashSet;

fn element(key: Option<&str>, tag: &str, children: Vec<VirtualNode>) -> VirtualNode {
    VirtualNode::Element {
        tag: Tag::Element(tag.to_string()),
        attributes: vec![],
        children,
        key: key.map(|k| k.to_string()),
        props: None,
    }
}

fn visible(s: &str) -> String {
    s.chars().filter(|c| !c.is_whitespace() && *c != '}').collect()
}

#[test]
fn fmt_body_with_trailing_if_is_refused() {
    assert_eq!(try_format_macro_body("a if "), None);
    assert_eq!(try_format_euv_macros("html! { div if }"), None);
}

#[test]
fn fmt_try_variants_match_plain_ones() {
    let body = "div{a{b}c}";
    assert_eq!(try_format_macro_body(body), Some(format_macro_body(body)));
    let src = "fn f() { html! {if{a}{b}} }";
    assert_eq!(try_format_euv_macros(src), Some(format_euv_macros(src)));
}

#[test]
fn fmt_source_reports_change() {
    let changed = format_source("html! {div{a}}");
    assert!(changed.get_changed());
    assert_eq!(changed.get_output(), "html! {\n    div {\n        a\n    }\n}");
    let same = format_source("fn main() { let x = 1; }");
    assert!(!same.get_changed());
    assert_eq!(same.get_output(), "fn main() { let x = 1; }");
}

#[test]
fn fmt_leaves_other_text_alone() {
    let src = "let s = \"html! {x}\"; // html! {y}\n/* class! {z} */ fn html() {}";
    assert_eq!(format_euv_macros(src), src);
}

#[test]
fn fmt_keeps_non_whitespace_characters() {
    let inputs = [
        "div{a{b}c}",
        "if{a}{b}else if{c}{d}else{e}",
        "for (i, v) in a.iter().enumerate(){b}",
        "class:if{a}{b}else{c}",
        "div{:hover{color:\"red\"}}",
        "watch!{signal=>{callback}}",
        "div{ unclosed",
    ];
    for input in inputs {
        assert_eq!(visible(&format_macro_body(input)), visible(input));
    }
    let src = "    html! {\n  div {a:b c:d}\n }";
    assert_eq!(visible(&format_euv_macros(src)), visible(src));
}

#[test]
fn fmt_closes_open_block() {
    assert_eq!(format_macro_body("div{a"), "div {\n    a\n}");
}

#[test]
fn fmt_raw_identifier_colon_untouched() {
    assert_eq!(format_macro_body("r#for:x"), "r#for:x");
}

#[test]
fn fmt_idempotent_on_formatted_body() {
    let once = format_macro_body("div{a{b}c if{x}{y}else{z}}");
    assert_eq!(format_macro_body(&once), once);
}

#[test]
fn diff_of_same_list_is_all_updates() {
    let list = vec![element(Some("a"), "div", vec![]), element(Some("b"), "p", vec![])];
    let expected = vec![DiffOp::Update { index: 0 }, DiffOp::Update { index: 1 }];
    assert_eq!(diff_keyed(&list, &list), expected);
    assert_eq!(diff_positional(&list, &list), expected);
    assert_eq!(diff_children(&list, &list), expected);
}

#[test]
fn diff_positional_rebuilds_new_list() {
    let old = vec![element(None, "a", vec![]), element(None, "b", vec![]), element(None, "c", vec![])];
    let new = vec![element(None, "x", vec![])];
    let ops = diff_positional(&old, &new);
    assert_eq!(
        ops,
        vec![DiffOp::Update { index: 0 }, DiffOp::Remove { index: 2 }, DiffOp::Remove { index: 1 }]
    );
}

#[test]
fn visual_equality_ignores_keys_and_accepts_dynamic() {
    let a = element(Some("a"), "div", vec![VirtualNode::Text(TextNode::new("t".to_string()))]);
    let b = element(Some("b"), "div", vec![VirtualNode::Text(TextNode::new("t".to_string()))]);
    let c = element(Some("a"), "div", vec![VirtualNode::Text(TextNode::new("u".to_string()))]);
    assert!(visually_equal(&a, &b));
    assert!(a == b);
    assert!(a != c);
    let d: VirtualNode = VirtualNode::Dynamic(DynamicNode { render_id: 1 });
    let e: VirtualNode = VirtualNode::Dynamic(DynamicNode { render_id: 2 });
    assert!(visually_equal(&d, &e));
    assert!(d == e);
    assert!(d != VirtualNode::Empty);
    assert!(VirtualNode::<()>::Empty == VirtualNode::Empty);
}

#[test]
fn node_accessors() {
    let child = element(None, "span", vec![]);
    let node = element(Some("k"), "div", vec![child.clone()]);
    assert_eq!(node.try_get_tag_name(), Some("div".to_string()));
    assert!(node.has_children());
    assert_eq!(node.get_children().len(), 1);
    assert!(node.get_first_child() == Some(&child));
    assert_eq!(node.key(), Some("k"));
    assert!(node.has_key());
    let portal: VirtualNode = VirtualNode::Element {
        tag: Tag::Portal("target".to_string()),
        attributes: vec![],
        children: vec![],
        key: None,
        props: None,
    };
    assert_eq!(portal.try_get_tag_name(), None);
    let text: VirtualNode = VirtualNode::Text(TextNode::new("x".to_string()));
    assert!(text.try_get_children().is_none());
    assert!(text.get_children().is_empty());
    assert_eq!(text.try_get_tag_name(), None);
}

#[test]
fn node_props_and_attributes() {
    let node: VirtualNode<u32> = VirtualNode::Element {
        tag: Tag::Component("Counter".to_string()),
        attributes: vec![],
        children: vec![],
        key: None,
        props: Some(7),
    };
    assert_eq!(node.try_get_props(), Some(7));
    assert_eq!(node.try_get_tag_name(), Some("Counter".to_string()));
    let entry = AttributeEntry { name: "class".to_string(), value: AttributeValue::from("c".to_string()) };
    let extended = element(None, "div", vec![]).extend_attributes(vec![entry.clone()]);
    match extended {
        VirtualNode::Element { attributes, .. } => assert_eq!(attributes, vec![entry.clone()]),
        _ => panic!("not an element"),
    }
    let empty: VirtualNode = VirtualNode::Empty.extend_attributes(vec![entry]);
    assert!(matches!(empty, VirtualNode::Empty));
}

#[test]
fn input_key_press_release_and_frames() {
    let mut state = InputState::new();
    state.press_key("KeyA".to_string());
    assert!(state.is_key_pressed("KeyA"));
    assert!(state.is_key_held("KeyA"));
    state.end_frame();
    assert!(!state.is_key_pressed("KeyA"));
    assert!(state.is_key_held("KeyA"));
    state.press_key("KeyA".to_string());
    assert!(!state.is_key_pressed("KeyA"));
    state.release_key("KeyA".to_string());
    assert!(!state.is_key_held("KeyA"));
    assert!(state.is_key_released("KeyA"));
    state.end_frame();
    assert!(!state.is_key_released("KeyA"));
}

#[test]
fn input_mouse_and_touch() {
    let mut state = InputState::default();
    let p = Input::extract_mouse_position(10, 20);
    state.press_mouse_button(Input::extract_mouse_button(2), p);
    assert!(state.is_mouse_button_pressed(MouseButton::Right));
    assert!(state.is_mouse_button_held(MouseButton::Right));
    state.release_mouse_button(MouseButton::Right);
    assert!(!state.is_mouse_button_held(MouseButton::Right));
    assert_eq!(Input::extract_mouse_button(7), MouseButton::Left);
    assert_eq!(Input::extract_mouse_button(4), MouseButton::Button5);
    state.update_mouse_position(ClientPoint { x: 13, y: 16 });
    state.start_touch(5, ClientPoint { x: 1, y: 1 });
    state.start_touch(2, ClientPoint { x: 9, y: 9 });
    assert_eq!(state.primary_touch_position(), Some(ClientPoint { x: 9, y: 9 }));
    state.update_touch(2, ClientPoint { x: 8, y: 8 });
    assert_eq!(state.primary_touch_position(), Some(ClientPoint { x: 8, y: 8 }));
    state.end_touch(2);
    assert_eq!(state.primary_touch_position(), Some(ClientPoint { x: 1, y: 1 }));
    state.apply_event(InputEvent::TouchEnd(vec![5]));
    assert_eq!(state.primary_touch_position(), None);
    let _ = ClientDelta { dx: 3, dy: -4 };
}

#[test]
fn input_events_skip_empty_codes() {
    let mut state = InputState::new();
    state.apply_event(InputEvent::KeyDown(String::new()));
    assert!(!state.is_key_held(""));
    state.apply_event(InputEvent::KeyDown("Space".to_string()));
    assert!(state.is_key_held("Space"));
    state.apply_event(InputEvent::KeyUp("Space".to_string()));
    assert!(!state.is_key_held("Space"));
    state.apply_event(InputEvent::MouseDown(MouseButton::Left, ClientPoint { x: 1, y: 2 }));
    state.apply_event(InputEvent::MouseMove(ClientPoint { x: 4, y: 6 }));
    state.apply_event(InputEvent::MouseLeave);
    state.apply_event(InputEvent::MouseUp(MouseButton::Left));
    assert!(!state.is_mouse_button_held(MouseButton::Left));
}

#[test]
fn rng_sequence_is_deterministic() {
    let mut rng = ParticleRng::default();
    assert_eq!(rng.next_u64(), 973819730272012410);
    assert_eq!(rng.next_u64(), 6108091081255984487);
    assert_eq!(rng.next_u64(), 12125365036566318712);
    let mut zero = ParticleRng::with_seed(0);
    let mut default = ParticleRng::default();
    assert_eq!(zero.next_u64(), default.next_u64());
    let mut one = ParticleRng::with_seed(1);
    assert_eq!(one.next_u64(), 5180492295206395165);
}

#[test]
fn particle_spawn_budget_respects_capacity() {
    assert_eq!(spawn_budget(10, 512, 0), 10);
    assert_eq!(spawn_budget(10, 512, 508), 4);
    assert_eq!(spawn_budget(10, 512, 600), 0);
}

#[test]
fn spatial_2d_insert_query_clear() {
    let mut grid = SpatialHashGrid2D::new();
    grid.insert(0, CellRange2D { min_col: 0, min_row: 0, max_col: 1, max_row: 0 });
    grid.insert(1, CellRange2D { min_col: 1, min_row: 0, max_col: 1, max_row: 1 });
    grid.insert(2, CellRange2D { min_col: 5, min_row: 5, max_col: 5, max_row: 5 });
    let found = grid.query(CellRange2D { min_col: 0, min_row: 0, max_col: 1, max_row: 1 });
    assert_eq!(found, vec![0, 1]);
    let mut out = vec![9];
    let mut seen = HashSet::new();
    seen.insert(42usize);
    grid.query_into(CellRange2D { min_col: 1, min_row: 0, max_col: 5, max_row: 5 }, &mut out, &mut seen);
    assert_eq!(out, vec![0, 1, 2]);
    assert_eq!(seen, out.iter().copied().collect::<HashSet<usize>>());
    grid.clear();
    assert!(grid.query(CellRange2D { min_col: -3, min_row: -3, max_col: 6, max_row: 6 }).is_empty());
}

#[test]
fn spatial_3d_insert_query() {
    let mut grid = SpatialHashGrid3D::new();
    grid.insert(4, CellRange3D { min_col: 0, min_row: 0, min_layer: 0, max_col: 0, max_row: 0, max_layer: 1 });
    grid.insert(3, CellRange3D { min_col: 0, min_row: 0, min_layer: 1, max_col: 0, max_row: 0, max_layer: 1 });
    let found = grid.query(CellRange3D { min_col: 0, min_row: 0, min_layer: 0, max_col: 0, max_row: 0, max_layer: 1 });
    assert_eq!(found, vec![4, 3]);
    let none = grid.query(CellRange3D { min_col: 1, min_row: 0, min_layer: 0, max_col: 2, max_row: 0, max_layer: 1 });
    assert!(none.is_empty());
}

#[test]
fn kinds_defaults_and_cache() {
    assert_eq!(LightType::default(), LightType::Directional);
    assert_eq!(MaterialKind::default(), MaterialKind::Lambert);
    assert_eq!(OccluderKind::default(), OccluderKind::Sphere);
    let cache: LruCache<u32, String> = LruCache::new(3);
    assert_eq!(cache.get_capacity(), 3);
}

#[test]
fn lru_get_after_put_gives_value_back() {
    let mut cache: LruCache<u64, String> = LruCache::new(2);
    cache.put(1, String::from("one"));
    assert_eq!(cache.get(&1), Some(&String::from("one")));
    assert_eq!(cache.peek(&1), Some(&String::from("one")));
    assert!(cache.contains(&1));
    assert!(!cache.contains(&2));
    assert_eq!(cache.len(), 1);
}

#[test]
fn lru_put_replaces_value_of_same_key() {
    let mut cache: LruCache<u64, u32> = LruCache::new(2);
    cache.put(1, 10);
    cache.put(1, 11);
    assert_eq!(cache.len(), 1);
    assert_eq!(cache.peek(&1), Some(&11));
}

#[test]
fn lru_full_cache_evicts_least_recently_used() {
    let mut cache: LruCache<u64, u32> = LruCache::new(2);
    cache.put(1, 10);
    cache.put(2, 20);
    cache.put(3, 30);
    assert!(!cache.contains(&1));
    assert_eq!(cache.peek(&2), Some(&20));
    assert_eq!(cache.peek(&3), Some(&30));
    assert_eq!(cache.len(), 2);
}

#[test]
fn lru_get_protects_entry_from_eviction() {
    let mut cache: LruCache<u64, u32> = LruCache::new(2);
    cache.put(1, 10);
    cache.put(2, 20);
    assert_eq!(cache.get(&1), Some(&10));
    cache.put(3, 30);
    assert!(cache.contains(&1));
    assert!(!cache.contains(&2));
    assert!(cache.contains(&3));
}

#[test]
fn lru_peek_does_not_protect_entry() {
    let mut cache: LruCache<u64, u32> = LruCache::new(2);
    cache.put(1, 10);
    cache.put(2, 20);
    assert_eq!(cache.peek(&1), Some(&10));
    cache.put(3, 30);
    assert!(!cache.contains(&1));
    assert!(cache.contains(&2));
}

#[test]
fn lru_zero_capacity_accepts_nothing() {
    let mut cache: LruCache<u64, u32> = LruCache::new(0);
    cache.put(1, 10);
    assert!(cache.is_empty());
    assert_eq!(cache.get(&1), None);
}

#[test]
fn lru_capacity_one_keeps_last_put() {
    let mut cache: LruCache<String, u32> = LruCache::new(1);
    cache.put(String::from("a"), 1);
    cache.put(String::from("b"), 2);
    assert_eq!(cache.len(), 1);
    assert!(!cache.contains(&String::from("a")));
    assert_eq!(cache.peek(&String::from("b")), Some(&2));
}

#[test]
fn lru_remove_returns_value_and_forgets_key() {
    let mut cache: LruCache<i32, u32> = LruCache::new(3);
    cache.put(-1, 5);
    cache.put(2, 6);
    assert_eq!(cache.remove(&-1), Some(5));
    assert_eq!(cache.remove(&-1), None);
    assert!(!cache.contains(&-1));
    assert_eq!(cache.len(), 1);
}

#[test]
fn signal_addrs_take_returns_pushes_in_order() {
    let mut registry = SignalAddrs::new();
    registry.push(7, 100);
    registry.push(8, 200);
    registry.push(7, 101);
    assert_eq!(registry.take(7), Some(vec![100, 101]));
    assert_eq!(registry.take(7), None);
    assert_eq!(registry.take(8), Some(vec![200]));
    assert_eq!(registry.take(9), None);
}

#[test]
fn webgl_status_banner() {
    assert_eq!(webgl_status_text(false, true, "x"), "Initializing...");
    assert_eq!(webgl_status_text(true, true, "x"), "WebGL Active");
    assert_eq!(webgl_status_text(true, false, ""), "WebGL not supported");
    assert_eq!(webgl_status_text(true, false, "context_lost"), "WebGL init failed");
}

#[test]
fn routes_choose_pages_with_not_found_fallback() {
    assert_eq!(route_page("/"), Page::About);
    assert_eq!(route_page("/about"), Page::About);
    assert_eq!(route_page("/timer"), Page::Timer);
    assert_eq!(route_page("/game-3d"), Page::Game3D);
    assert_eq!(route_page("/websocket"), Page::Websocket);
    assert_eq!(route_page("/about/"), Page::NotFound);
    assert_eq!(route_page(""), Page::NotFound);
    assert_eq!(route_page("/Timer"), Page::NotFound);
}

#[test]
fn demo_button_labels() {
    assert_eq!(pause_label(true), "Pause");
    assert_eq!(pause_label(false), "Resume");
    assert_eq!(auto_rotate_label(true), "Auto: On");
    assert_eq!(auto_rotate_label(false), "Auto: Off");
}

#[test]
fn spatial_3d_bodies_stay_found_until_clear() {
    let mut grid = SpatialHashGrid3D::new();
    let a = CellRange3D { min_col: 0, min_row: 0, min_layer: 0, max_col: 1, max_row: 1, max_layer: 1 };
    let b = CellRange3D { min_col: 1, min_row: 1, min_layer: 1, max_col: 2, max_row: 2, max_layer: 2 };
    let c = CellRange3D { min_col: 5, min_row: 5, min_layer: 5, max_col: 5, max_row: 5, max_layer: 5 };
    grid.insert(0, a);
    grid.insert(1, b);
    grid.insert(2, c);
    let q = CellRange3D { min_col: 1, min_row: 1, min_layer: 1, max_col: 1, max_row: 1, max_layer: 1 };
    assert_eq!(grid.query(q), vec![0, 1]);
    grid.clear();
    assert!(grid.query(q).is_empty());
    grid.insert(1, b);
    assert_eq!(grid.query(q), vec![1]);
}
