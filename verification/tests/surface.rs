use screen_ruler::edges::EdgeMap;
use screen_ruler::image::Rgba8;
use screen_ruler::surface::{Desktop, Surface};

fn monitor(name: &str, edges: &[bool], width: usize) -> Surface<String> {
    let height = edges.len() / width;
    Surface {
        geometry: name.to_string(),
        image: Rgba8::from_raw(width, height, vec![0; width * height * 4]).expect("valid buffer"),
        edges: EdgeMap::new(width, height, edges.to_vec()).expect("valid map"),
    }
}

#[test]
fn an_edge_map_counts_its_set_pixels() {
    let map = EdgeMap::new(3, 2, vec![true, false, true, false, false, true]).expect("valid map");
    assert_eq!(map.count(), 3);
    assert_eq!(EdgeMap::new(0, 0, Vec::new()).expect("empty map").count(), 0);
}

#[test]
fn a_desktop_keeps_its_monitors_in_order() {
    let desktop = Desktop::new(vec![
        monitor("left", &[true, false, false, true], 2),
        monitor("right", &[false, true, true, true, true, false], 3),
    ]);
    assert!(!desktop.is_empty());
    assert_eq!(desktop.geometries(), vec!["left".to_string(), "right".to_string()]);
    assert_eq!(desktop.surface(1).map(|s| s.geometry.as_str()), Some("right"));
    assert!(desktop.surface(2).is_none());
    assert_eq!(desktop.edge_count(), 6);
}

#[test]
fn set_geometry_replaces_one_monitor_and_ignores_a_bad_index() {
    let mut desktop = Desktop::new(vec![monitor("a", &[true], 1), monitor("b", &[false], 1)]);
    desktop.set_geometry(1, "B".to_string());
    desktop.set_geometry(5, "Z".to_string());
    assert_eq!(desktop.geometries(), vec!["a".to_string(), "B".to_string()]);
    assert_eq!(desktop.edge_count(), 1);
}

#[test]
fn an_empty_desktop_has_no_edges() {
    let desktop: Desktop<String> = Desktop::new(Vec::new());
    assert!(desktop.is_empty());
    assert!(desktop.geometries().is_empty());
    assert_eq!(desktop.edge_count(), 0);
}
