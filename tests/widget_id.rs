use kas::util::{spatial_nav, BadIcon, ConfigureManager, CoreData, Icon, PassId};
use kas::geom::{Coord, Rect, Size};
use kas::widget_id::WidgetId;

#[test]
fn default_id_is_invalid() {
    assert!(!WidgetId::default().is_valid());
    assert!(!WidgetId::invalid().is_valid());
    assert!(WidgetId::root().is_valid());
}

#[test]
fn child_descends_from_parent_only() {
    let root = WidgetId::root();
    let a = root.make_child(0);
    let b = root.make_child(1);
    let a2 = a.make_child(7);
    assert!(root.is_ancestor_of(&a));
    assert!(a.is_ancestor_of(&a2));
    assert!(root.is_ancestor_of(&a2));
    assert!(a.is_ancestor_of(&a));
    assert!(!a.is_ancestor_of(&b));
    assert!(!b.is_ancestor_of(&a2));
    assert!(!a2.is_ancestor_of(&a));
    assert_eq!(a2.depth(), 2);
}

#[test]
fn next_key_after_ancestor() {
    let root = WidgetId::root();
    let a = root.make_child(3);
    let a2 = a.make_child(9);
    assert_eq!(a2.next_key_after(&root), Some(3));
    assert_eq!(a2.next_key_after(&a), Some(9));
    assert_eq!(a2.next_key_after(&a2), None);
    assert_eq!(a.next_key_after(&root.make_child(4)), None);
}

#[test]
fn ids_equal_by_path() {
    let root = WidgetId::root();
    assert_eq!(root.make_child(2).make_child(5), root.make_child(2).make_child(5));
    assert_ne!(root.make_child(2), root.make_child(5));
    assert_eq!(WidgetId::default(), WidgetId::invalid());
    assert_ne!(WidgetId::default(), root);
    let c = root.make_child(1);
    assert_eq!(c.clone(), c);
}

#[test]
fn order_keeps_descendants_together() {
    let root = WidgetId::root();
    let a = root.make_child(1);
    let a0 = a.make_child(0);
    let a05 = a0.make_child(5);
    let b = root.make_child(2);
    assert!(root.less_than(&a));
    assert!(a.less_than(&a0));
    assert!(a0.less_than(&a05));
    assert!(a05.less_than(&b));
    assert!(a.less_than(&b));
    assert!(!b.less_than(&a));
    assert!(!a.less_than(&a));
}

#[test]
fn spatial_nav_order() {
    assert_eq!(spatial_nav(false, None, 3), Some(0));
    assert_eq!(spatial_nav(true, None, 3), Some(2));
    assert_eq!(spatial_nav(false, Some(1), 3), Some(2));
    assert_eq!(spatial_nav(false, Some(2), 3), None);
    assert_eq!(spatial_nav(true, Some(1), 3), Some(0));
    assert_eq!(spatial_nav(true, Some(0), 3), None);
    assert_eq!(spatial_nav(false, None, 0), None);
    assert_eq!(spatial_nav(true, None, 0), None);
}

#[test]
fn pass_id_number() {
    assert_eq!(PassId::new(7).pass(), 7);
}

#[test]
fn core_data_clone_drops_id() {
    let d = CoreData {
        rect: Rect::new(Coord(1, 2), Size(3, 4)),
        id: WidgetId::root().make_child(0),
    };
    let c = d.clone();
    assert_eq!(c.rect, d.rect);
    assert!(!c.id.is_valid());
    assert!(!CoreData::default().id.is_valid());
}

#[test]
fn icon_from_rgba_checks_sizes() {
    let ok = Icon::from_rgba(vec![0u8; 16], 2, 2).unwrap();
    assert_eq!(ok.size(), (2, 2));
    assert_eq!(
        Icon::from_rgba(vec![0u8; 7], 1, 1).unwrap_err(),
        BadIcon::ByteCountNotDivisibleBy4 { byte_count: 7 }
    );
    assert_eq!(
        Icon::from_rgba(vec![0u8; 8], 3, 1).unwrap_err(),
        BadIcon::DimensionsVsPixelCount { width: 3, height: 1, width_x_height: 3, pixel_count: 2 }
    );
}

#[test]
fn configure_manager_hands_out_child_ids() {
    let mut m = ConfigureManager::new(WidgetId::root());
    assert_eq!(m.get_id(), WidgetId::root());
    let mut c = m.child(3);
    assert_eq!(c.get_id(), WidgetId::root().make_child(3));
    let mut d = c.child(1);
    assert_eq!(d.get_id(), WidgetId::root().make_child(3).make_child(1));
}
