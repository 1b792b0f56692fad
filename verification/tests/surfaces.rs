use mkframe::render::INITIAL_POOL_SIZE;
use mkframe::{
    App, AttachedAnchor, AttachedSurfaceId, Capabilities, OverlayId, PopupAnchor, PopupConfig,
    PopupGravity, PopupId, PopupPlacement, RenderPlan, SubsurfaceId, SurfaceRef, WindowId,
    WindowManager,
};

fn all_capabilities() -> Capabilities {
    Capabilities { layer_shell: true, subcompositor: true, attached_surface: true, data_device: true }
}

fn no_capabilities() -> Capabilities {
    Capabilities {
        layer_shell: false,
        subcompositor: false,
        attached_surface: false,
        data_device: false,
    }
}

#[test]
fn window_is_clean_until_configured_and_dirty_until_rendered() {
    let mut app = App::new(all_capabilities());
    let id = app.create_window(7, 800, 600);
    assert_eq!(id, WindowId(1));
    assert!(!app.is_window_dirty(id));

    // Nothing but a configuration makes it dirty.
    assert_eq!(app.render_window(id), None);
    assert!(!app.is_window_dirty(id));
    let other = app.create_window(8, 10, 10);
    assert_eq!(app.configure_window(8, 20, 20), Some(other));
    assert!(!app.is_window_dirty(id));
    app.keyboard_enter(7);
    app.press_key(0x61, None, 0);
    assert!(!app.is_window_dirty(id));

    assert_eq!(app.configure_window(7, 800, 600), Some(id));
    assert!(app.is_window_dirty(id));
    // It stays dirty until it is rendered.
    app.release_key(0x61, None);
    assert!(app.render_window(other).is_some());
    assert!(app.is_window_dirty(id));
    assert!(app.render_window(id).is_some());
    assert!(!app.is_window_dirty(id));
}

#[test]
fn scenario_window_configure_render_resize() {
    let mut app = App::new(all_capabilities());
    let id = app.create_window(3, 800, 600);
    assert_eq!(app.configure_window(3, 800, 600), Some(id));
    assert!(app.is_window_dirty(id));
    let plan = app.render_window(id);
    assert_eq!(
        plan,
        Some(RenderPlan {
            surface: 3,
            width: 800,
            height: 600,
            stride: 3200,
            buffer_size: 1_920_000,
            grow_pool_to: None,
        })
    );
    assert!(!app.is_window_dirty(id));

    assert_eq!(app.configure_window(3, 400, 300), Some(id));
    assert!(app.is_window_dirty(id));
    assert_eq!(app.window_size(id), Some((400, 300)));
    let plan = app.render_window(id).unwrap();
    assert_eq!((plan.width, plan.height), (400, 300));
    assert_eq!(plan.stride, 1600);
    assert_eq!(plan.buffer_size, 480_000);
    assert!(!app.is_window_dirty(id));
}

#[test]
fn rendering_twice_clears_once() {
    let mut app = App::new(all_capabilities());
    let id = app.create_window(3, 3000, 2000);
    app.configure_window(3, 0, 0);
    assert_eq!(app.window_size(id), Some((3000, 2000)));
    let first = app.render_window(id).unwrap();
    assert_eq!(first.buffer_size, 24_000_000);
    assert_eq!(first.grow_pool_to, Some(24_000_000));
    assert_eq!(app.pool_len(), 24_000_000);
    assert!(!app.is_window_dirty(id));
    // A second rendering is a no-op: no frame is planned, and nothing changes.
    assert_eq!(app.render_window(id), None);
    assert_eq!(app.render_window(id), None);
    assert_eq!(app.pool_len(), 24_000_000);
    assert!(!app.is_window_dirty(id));
    assert_eq!(app.window_size(id), Some((3000, 2000)));
    // The next configuration owes one frame again, and the pool is large enough for it.
    app.configure_window(3, 0, 0);
    let next = app.render_window(id).unwrap();
    assert_eq!(next, RenderPlan { grow_pool_to: None, ..first });
    assert_eq!(app.render_window(id), None);
    // So does a request for a repaint.
    app.mark_dirty(SurfaceRef::Window(id));
    assert_eq!(app.render_window(id), Some(next));
    assert_eq!(app.render_window(id), None);
}

#[test]
fn every_kind_renders_once_for_each_repaint_it_owes() {
    let mut app = App::new(all_capabilities());
    let window = app.create_window(1, 10, 10);
    let popup = app.create_popup(window, 2, PopupConfig::default()).unwrap();
    let overlay = app.create_overlay(3, 10, 10).unwrap();
    let sub = app.create_subsurface(window, 4, 0, 0, 10, 10).unwrap();
    let attached = app.create_attached_surface(window, 5, 0, 0, 10, 10).unwrap();
    app.configure_popup(2);
    app.configure_overlay(3, 0, 0);
    app.configure_attached_surface(attached, 1, 0, 0);
    assert!(app.render_popup(popup).is_some());
    assert_eq!(app.render_popup(popup), None);
    assert!(app.render_overlay(overlay).is_some());
    assert_eq!(app.render_overlay(overlay), None);
    assert!(app.render_subsurface(sub).is_some());
    assert_eq!(app.render_subsurface(sub), None);
    assert!(app.render_attached_surface(attached).is_some());
    assert_eq!(app.render_attached_surface(attached), None);
    assert_eq!(app.pool_len(), INITIAL_POOL_SIZE);
}

#[test]
fn pool_grows_and_never_shrinks() {
    let mut app = App::new(all_capabilities());
    assert_eq!(app.pool_len(), INITIAL_POOL_SIZE);
    assert_eq!(INITIAL_POOL_SIZE, 1920 * 1080 * 4);
    let big = app.create_window(1, 1921, 1080);
    let small = app.create_window(2, 10, 10);
    app.configure_window(1, 0, 0);
    app.configure_window(2, 0, 0);
    let plan = app.render_window(small).unwrap();
    assert_eq!(plan.grow_pool_to, None);
    assert_eq!(app.pool_len(), INITIAL_POOL_SIZE);
    let plan = app.render_window(big).unwrap();
    assert_eq!(plan.grow_pool_to, Some(1921 * 1080 * 4));
    assert_eq!(app.pool_len(), 1921 * 1080 * 4);
    app.configure_window(2, 0, 0);
    app.render_window(small).unwrap();
    assert_eq!(app.pool_len(), 1921 * 1080 * 4);
}

#[test]
fn render_is_skipped_without_a_backing_buffer() {
    let mut app = App::new(all_capabilities());
    let flat = app.create_window(1, 0, 600);
    let huge = app.create_window(2, 65536, 65536);
    let limit = app.create_window(3, 23170, 23170);
    app.configure_window(1, 0, 0);
    app.configure_window(2, 0, 0);
    app.configure_window(3, 0, 0);
    assert!(app.is_window_dirty(flat));
    assert_eq!(app.render_window(flat), None);
    // The flag is cleared even though nothing was submitted.
    assert!(!app.is_window_dirty(flat));
    assert_eq!(app.render_window(huge), None);
    assert!(!app.is_window_dirty(huge));
    assert_eq!(app.pool_len(), INITIAL_POOL_SIZE);
    // 23170 * 23170 * 4 = 2_147_395_600 fits a signed 32-bit size; one pixel more per side
    // does not.
    assert_eq!(app.render_window(limit).unwrap().buffer_size, 2_147_395_600);
    let over = app.create_window(4, 23171, 23171);
    app.configure_window(4, 0, 0);
    assert_eq!(app.render_window(over), None);
}

#[test]
fn unknown_surfaces_are_absorbed() {
    let mut app = App::new(all_capabilities());
    assert_eq!(app.render_window(WindowId(9)), None);
    assert_eq!(app.render_popup(PopupId(9)), None);
    assert_eq!(app.render_overlay(OverlayId(9)), None);
    assert_eq!(app.render_subsurface(SubsurfaceId(9)), None);
    assert_eq!(app.render_attached_surface(AttachedSurfaceId(9)), None);
    assert!(!app.is_window_dirty(WindowId(9)));
    assert!(!app.is_popup_dirty(PopupId(9)));
    assert!(!app.is_overlay_dirty(OverlayId(9)));
    assert!(!app.is_subsurface_dirty(SubsurfaceId(9)));
    assert!(!app.is_attached_surface_dirty(AttachedSurfaceId(9)));
    assert_eq!(app.window_size(WindowId(9)), None);
    assert_eq!(app.configure_window(5, 1, 1), None);
    assert_eq!(app.configure_popup(5), None);
    assert_eq!(app.configure_overlay(5, 1, 1), None);
    assert!(!app.configure_attached_surface(AttachedSurfaceId(9), 1, 1, 1));
    assert!(app.request_close(5).is_none());
    assert!(app.close_window(WindowId(9)).is_empty());
    app.close_popup(PopupId(9));
    app.close_overlay(OverlayId(9));
    app.close_subsurface(SubsurfaceId(9));
    app.close_attached_surface(AttachedSurfaceId(9));
    app.set_subsurface_position(SubsurfaceId(9), 1, 1);
    app.set_attached_surface_position(AttachedSurfaceId(9), 1, 1);
    app.set_attached_surface_anchor(AttachedSurfaceId(9), AttachedAnchor::Top, 1, 1);
    assert!(app.is_running());
}

#[test]
fn closing_a_window_closes_its_popups_and_nothing_else() {
    let mut app = App::new(all_capabilities());
    let first = app.create_window(1, 800, 600);
    let second = app.create_window(2, 800, 600);
    let left = app.create_popup(first, 11, PopupConfig::default()).unwrap();
    let other = app.create_popup(second, 12, PopupConfig::default()).unwrap();
    let right = app.create_popup(first, 13, PopupConfig::default()).unwrap();
    let sub = app.create_subsurface(first, 21, 0, 0, 10, 10).unwrap();
    let attached = app.create_attached_surface(first, 31, 0, 0, 10, 10).unwrap();
    let overlay = app.create_overlay(41, 10, 10).unwrap();
    assert_eq!((left, other, right), (PopupId(1), PopupId(2), PopupId(3)));
    assert_eq!(app.windows.popup_count(), 3);

    let mut closed = app.close_window(first);
    closed.sort_by_key(|p| p.0);
    assert_eq!(closed, vec![left, right]);
    assert!(app.windows.get_window(first).is_none());
    assert!(app.windows.get_popup(left).is_none());
    assert!(app.windows.get_popup(right).is_none());
    assert_eq!(app.windows.popup_count(), 1);
    assert_eq!(app.windows.get_popup(other).unwrap().parent, second);
    assert!(app.windows.get_window(second).is_some());
    // Subsurfaces and attached surfaces of the closed window are still there.
    assert_eq!(app.windows.get_subsurface(sub).unwrap().parent, first);
    assert_eq!(app.windows.get_attached_surface(attached).unwrap().parent_window_id, first);
    assert!(app.windows.get_overlay(overlay).is_some());
    assert!(app.is_subsurface_dirty(sub));
    app.close_subsurface(sub);
    app.close_attached_surface(attached);
    assert!(app.windows.get_subsurface(sub).is_none());
    assert!(app.windows.get_attached_surface(attached).is_none());
}

#[test]
fn identifiers_start_at_one_and_are_not_reused() {
    let mut app = App::new(all_capabilities());
    let a = app.create_window(1, 1, 1);
    let b = app.create_window(2, 1, 1);
    app.close_window(a);
    app.close_window(b);
    let c = app.create_window(1, 1, 1);
    assert_eq!((a, b, c), (WindowId(1), WindowId(2), WindowId(3)));
    assert_eq!(app.create_overlay(5, 1, 1), Some(OverlayId(1)));
    assert_eq!(app.create_subsurface(c, 6, 0, 0, 1, 1), Some(SubsurfaceId(1)));
    assert_eq!(app.create_attached_surface(c, 7, 0, 0, 1, 1), Some(AttachedSurfaceId(1)));
    assert_eq!(app.create_popup(c, 8, PopupConfig::default()), Some(PopupId(1)));
    // A failed creation uses up no identifier.
    assert_eq!(app.create_popup(a, 9, PopupConfig::default()), None);
    assert_eq!(app.create_popup(c, 9, PopupConfig::default()), Some(PopupId(2)));

    let mut registry = WindowManager::new();
    assert_eq!(registry.next_window_id(), WindowId(1));
    assert_eq!(registry.next_window_id(), WindowId(2));
    assert_eq!(registry.next_popup_id(), PopupId(1));
    assert_eq!(registry.next_overlay_id(), OverlayId(1));
    assert_eq!(registry.next_subsurface_id(), SubsurfaceId(1));
    assert_eq!(registry.next_attached_surface_id(), AttachedSurfaceId(1));
    assert_eq!(registry.window_count(), 0);
}

#[test]
fn creation_fails_without_parent_or_capability() {
    let mut app = App::new(no_capabilities());
    assert!(!app.has_layer_shell());
    assert!(!app.has_subcompositor());
    assert!(!app.has_attached_surface());
    assert!(!app.has_data_device());
    let window = app.create_window(1, 100, 100);
    assert_eq!(app.create_overlay(2, 10, 10), None);
    assert_eq!(app.create_subsurface(window, 3, 0, 0, 10, 10), None);
    assert_eq!(app.create_attached_surface(window, 4, 0, 0, 10, 10), None);
    assert_eq!(app.create_popup(WindowId(2), 5, PopupConfig::default()), None);
    assert!(app.create_popup(window, 5, PopupConfig::default()).is_some());

    let mut app = App::new(all_capabilities());
    assert!(app.has_layer_shell() && app.has_subcompositor());
    assert!(app.has_attached_surface() && app.has_data_device());
    assert_eq!(app.create_subsurface(WindowId(1), 3, 0, 0, 10, 10), None);
    assert_eq!(app.create_attached_surface(WindowId(1), 4, 0, 0, 10, 10), None);
    assert_eq!(app.windows.subsurface_count(), 0);
    assert_eq!(app.windows.attached_surface_count(), 0);
}

#[test]
fn scenario_popup_anchor_is_fixed_at_creation() {
    let mut app = App::new(all_capabilities());
    let parent = app.create_window(1, 800, 600);
    app.configure_window(1, 800, 600);
    let config = PopupConfig {
        anchor: PopupAnchor::Right,
        gravity: PopupGravity::Right,
        offset: (5, 0),
        size: (250, 150),
        anchor_rect: None,
    };
    let popup = app.create_popup(parent, 2, config).unwrap();
    let expected = PopupPlacement {
        anchor: PopupAnchor::Right,
        gravity: PopupGravity::Right,
        offset: (5, 0),
        size: (250, 150),
        anchor_rect: (0, 0, 800, 600),
    };
    assert_eq!(app.windows.get_popup(popup).unwrap().placement, expected);
    assert_eq!(app.windows.get_popup(popup).unwrap().parent, parent);

    app.configure_window(1, 400, 300);
    assert_eq!(app.window_size(parent), Some((400, 300)));
    assert_eq!(app.windows.get_popup(popup).unwrap().placement, expected);
    app.configure_popup(2);
    app.render_popup(popup);
    assert_eq!(app.windows.get_popup(popup).unwrap().placement, expected);
    let record = app.windows.get_popup(popup).unwrap();
    assert_eq!((record.width, record.height), (250, 150));
}

#[test]
fn popup_placement_takes_the_configured_rectangle() {
    let config = PopupConfig {
        anchor: PopupAnchor::TopLeft,
        gravity: PopupGravity::BottomRight,
        offset: (-3, 4),
        size: (10, 20),
        anchor_rect: Some((1, 2, 3, 4)),
    };
    let placement = config.placement(800, 600);
    assert_eq!(placement.anchor_rect, (1, 2, 3, 4));
    assert_eq!(placement.size, (10, 20));
    assert_eq!(placement.offset, (-3, 4));
    assert_eq!(placement.anchor, PopupAnchor::TopLeft);
    assert_eq!(placement.gravity, PopupGravity::BottomRight);

    let default = PopupConfig::default();
    assert_eq!(default.anchor, PopupAnchor::Right);
    assert_eq!(default.gravity, PopupGravity::Right);
    assert_eq!(default.offset, (0, 0));
    assert_eq!(default.size, (200, 200));
    assert_eq!(default.anchor_rect, None);
    // Sizes beyond the signed range wrap, as a cast does.
    let wrapped = PopupConfig { size: (u32::MAX, 0x8000_0000), ..default }.placement(1, 2);
    assert_eq!(wrapped.size, (-1, i32::MIN));
    assert_eq!(wrapped.anchor_rect, (0, 0, 1, 2));
    assert_eq!(mkframe::widget::to_signed(0x7fff_ffff), i32::MAX);
}

#[test]
fn popups_and_overlays_follow_the_same_lifecycle() {
    let mut app = App::new(all_capabilities());
    let window = app.create_window(1, 100, 100);
    let popup = app.create_popup(window, 2, PopupConfig::default()).unwrap();
    let overlay = app.create_overlay(3, 300, 40).unwrap();
    assert!(!app.is_popup_dirty(popup));
    assert!(!app.is_overlay_dirty(overlay));
    assert_eq!(app.render_popup(popup), None);
    assert_eq!(app.render_overlay(overlay), None);

    assert_eq!(app.configure_popup(2), Some(popup));
    assert!(app.is_popup_dirty(popup));
    let plan = app.render_popup(popup).unwrap();
    assert_eq!((plan.surface, plan.width, plan.height), (2, 200, 200));
    assert!(!app.is_popup_dirty(popup));

    // An overlay takes each suggested side by itself.
    assert_eq!(app.configure_overlay(3, 0, 50), Some(overlay));
    assert!(app.is_overlay_dirty(overlay));
    let plan = app.render_overlay(overlay).unwrap();
    assert_eq!((plan.surface, plan.width, plan.height), (3, 300, 50));
    assert!(!app.is_overlay_dirty(overlay));
    app.configure_overlay(3, 1920, 0);
    let plan = app.render_overlay(overlay).unwrap();
    assert_eq!((plan.width, plan.height), (1920, 50));

    assert_eq!(app.popup_done(2), Some(popup));
    assert!(app.windows.get_popup(popup).is_none());
    assert_eq!(app.overlay_closed(3), Some(overlay));
    assert!(app.windows.get_overlay(overlay).is_none());
    assert_eq!(app.popup_done(2), None);
}

#[test]
fn window_keeps_its_size_unless_both_sides_are_suggested() {
    let mut app = App::new(all_capabilities());
    let window = app.create_window(1, 640, 480);
    app.configure_window(1, 0, 0);
    assert_eq!(app.window_size(window), Some((640, 480)));
    app.configure_window(1, 1000, 0);
    assert_eq!(app.window_size(window), Some((640, 480)));
    app.configure_window(1, 0, 1000);
    assert_eq!(app.window_size(window), Some((640, 480)));
    app.configure_window(1, 1024, 768);
    assert_eq!(app.window_size(window), Some((1024, 768)));
}

#[test]
fn subsurface_renders_without_configuration() {
    let mut app = App::new(all_capabilities());
    let window = app.create_window(1, 100, 100);
    let sub = app.create_subsurface(window, 5, 10, 20, 30, 40).unwrap();
    assert!(app.is_subsurface_dirty(sub));
    let plan = app.render_subsurface(sub).unwrap();
    assert_eq!((plan.surface, plan.width, plan.height, plan.stride), (5, 30, 40, 120));
    assert_eq!(plan.buffer_size, 4800);
    assert!(!app.is_subsurface_dirty(sub));
    app.set_subsurface_position(sub, -7, 8);
    let record = app.windows.get_subsurface(sub).unwrap();
    assert_eq!((record.x, record.y), (-7, 8));
    assert_eq!(record.wl_surface(), 5);
    assert_eq!(app.windows.find_subsurface_by_surface(5), Some(sub));
    assert_eq!(app.windows.find_subsurface_by_surface(6), None);
}

#[test]
fn attached_surface_waits_for_its_configuration() {
    let mut app = App::new(all_capabilities());
    let window = app.create_window(1, 100, 100);
    let id = app.create_attached_surface(window, 9, 1, 2, 30, 40).unwrap();
    assert!(!app.is_attached_surface_dirty(id));
    assert_eq!(app.render_attached_surface(id), None);
    assert!(!app.windows.get_attached_surface(id).unwrap().configured);

    // A suggestion with a zero side leaves the size that was asked for.
    assert!(app.configure_attached_surface(id, 77, 0, 100));
    let record = *app.windows.get_attached_surface(id).unwrap();
    assert!(record.configured && record.dirty);
    assert_eq!((record.width, record.height), (30, 40));
    assert!(app.is_attached_surface_dirty(id));
    let plan = app.render_attached_surface(id).unwrap();
    assert_eq!((plan.surface, plan.width, plan.height), (9, 30, 40));
    assert!(!app.is_attached_surface_dirty(id));

    assert!(app.configure_attached_surface(id, 78, 64, 32));
    let plan = app.render_attached_surface(id).unwrap();
    assert_eq!((plan.width, plan.height), (64, 32));

    app.set_attached_surface_position(id, 11, 12);
    app.set_attached_surface_anchor(id, AttachedAnchor::Bottom, 4, -2);
    let record = *app.windows.get_attached_surface(id).unwrap();
    assert_eq!((record.x, record.y), (11, 12));
    assert_eq!((record.anchor, record.margin, record.offset), (AttachedAnchor::Bottom, 4, -2));
    assert_eq!(app.windows.find_attached_surface_by_surface(9), Some(id));

    app.attached_surface_closed(id);
    assert!(app.windows.get_attached_surface(id).is_none());
    assert!(!app.configure_attached_surface(id, 79, 64, 32));
}

#[test]
fn anchors_have_their_protocol_numbers() {
    assert_eq!(AttachedAnchor::default(), AttachedAnchor::Unanchored);
    assert_eq!(AttachedAnchor::Unanchored.to_protocol(), 0);
    assert_eq!(AttachedAnchor::Top.to_protocol(), 1);
    assert_eq!(AttachedAnchor::Bottom.to_protocol(), 2);
    assert_eq!(AttachedAnchor::Left.to_protocol(), 3);
    assert_eq!(AttachedAnchor::Right.to_protocol(), 4);
}

#[test]
fn records_mark_dirty_only_once_configured() {
    let mut app = App::new(all_capabilities());
    let window = app.create_window(1, 100, 100);
    let mut record = *app.windows.get_window(window).unwrap();
    record.mark_dirty();
    assert!(!record.dirty);
    record.configured = true;
    record.mark_dirty();
    assert!(record.dirty);
    assert_eq!(record.surface(), 1);
    assert!(app.windows.update_window(record));
    assert!(app.is_window_dirty(window));
    // A record that is dirty but not configured is not taken.
    let mut broken = record;
    broken.configured = false;
    assert!(!app.windows.update_window(broken));
    assert!(app.windows.get_window(window).unwrap().configured);
    assert_eq!(app.windows.add_window(broken), None);
    assert_eq!(app.windows.window_count(), 1);
    // Nor is one whose window is not registered.
    let mut stray = record;
    stray.id = WindowId(50);
    assert!(!app.windows.update_window(stray));
    assert_eq!(app.windows.remove_window(WindowId(50)).map(|w| w.id), None);
    assert_eq!(app.windows.remove_window(window).map(|w| w.id), Some(window));
}

#[test]
fn reverse_lookup_finds_the_first_surface() {
    let mut app = App::new(all_capabilities());
    let a = app.create_window(5, 1, 1);
    let b = app.create_window(5, 2, 2);
    let c = app.create_window(6, 3, 3);
    assert_eq!(app.windows.find_window_by_surface(5), Some(a));
    assert_eq!(app.windows.find_window_by_surface(6), Some(c));
    assert_eq!(app.windows.find_window_by_surface(7), None);
    app.close_window(a);
    assert_eq!(app.windows.find_window_by_surface(5), Some(b));
    let p = app.create_popup(b, 5, PopupConfig::default()).unwrap();
    assert_eq!(app.windows.find_popup_by_surface(5), Some(p));
    assert_eq!(app.windows.find_overlay_by_surface(5), None);
    let mut ids = app.windows.popups_of_window(b);
    ids.sort_by_key(|p| p.0);
    assert_eq!(ids, vec![p]);
    assert!(app.windows.popups_of_window(c).is_empty());
}

#[test]
fn close_request_closes_the_window_and_stops_after_the_last() {
    let mut app = App::new(all_capabilities());
    let first = app.create_window(1, 10, 10);
    let second = app.create_window(2, 10, 10);
    let popup = app.create_popup(first, 3, PopupConfig::default()).unwrap();
    assert!(app.request_close(9).is_none());
    assert!(app.is_running());
    assert_eq!(app.request_close(1), Some((first, vec![popup])));
    assert!(app.is_running());
    assert!(app.windows.get_popup(popup).is_none());
    assert_eq!(app.request_close(2), Some((second, vec![])));
    assert!(!app.is_running());
    assert!(!app.running);

    let mut app = App::new(all_capabilities());
    app.quit();
    assert!(!app.is_running());
}

#[test]
fn mark_dirty_asks_for_a_repaint_once_configured() {
    let mut app = App::new(all_capabilities());
    let window = app.create_window(1, 10, 10);
    let popup = app.create_popup(window, 2, PopupConfig::default()).unwrap();
    let overlay = app.create_overlay(3, 10, 10).unwrap();
    let sub = app.create_subsurface(window, 4, 0, 0, 10, 10).unwrap();
    let attached = app.create_attached_surface(window, 5, 0, 0, 10, 10).unwrap();

    // Before the first configuration nothing can be painted, so nothing is owed.
    app.mark_dirty(SurfaceRef::Window(window));
    app.mark_dirty(SurfaceRef::Popup(popup));
    app.mark_dirty(SurfaceRef::Overlay(overlay));
    app.mark_dirty(SurfaceRef::Attached(attached));
    assert!(!app.is_window_dirty(window));
    assert!(!app.is_popup_dirty(popup));
    assert!(!app.is_overlay_dirty(overlay));
    assert!(!app.is_attached_surface_dirty(attached));

    app.configure_window(1, 0, 0);
    app.configure_popup(2);
    app.configure_overlay(3, 0, 0);
    app.configure_attached_surface(attached, 1, 0, 0);
    app.render_window(window);
    app.render_popup(popup);
    app.render_overlay(overlay);
    app.render_attached_surface(attached);
    app.render_subsurface(sub);
    assert!(!app.is_window_dirty(window) && !app.is_subsurface_dirty(sub));

    app.mark_dirty(SurfaceRef::Window(window));
    assert!(app.is_window_dirty(window));
    assert!(!app.is_popup_dirty(popup));
    app.mark_dirty(SurfaceRef::Popup(popup));
    app.mark_dirty(SurfaceRef::Overlay(overlay));
    app.mark_dirty(SurfaceRef::Subsurface(sub));
    app.mark_dirty(SurfaceRef::Attached(attached));
    assert!(app.is_popup_dirty(popup));
    assert!(app.is_overlay_dirty(overlay));
    assert!(app.is_subsurface_dirty(sub));
    assert!(app.is_attached_surface_dirty(attached));
    // Unknown surfaces are absorbed.
    app.mark_dirty(SurfaceRef::Window(WindowId(77)));
    app.mark_dirty(SurfaceRef::Subsurface(SubsurfaceId(77)));
    assert_eq!(app.windows.window_count(), 1);
    assert!(app.windows.has_free_window_id());
    assert!(app.windows.has_free_popup_id());
    assert!(app.windows.has_free_overlay_id());
    assert!(app.windows.has_free_subsurface_id());
    assert!(app.windows.has_free_attached_surface_id());
    assert!(app.has_free_window_id());
    assert!(app.has_free_popup_id());
    assert!(app.has_free_overlay_id());
    assert!(app.has_free_subsurface_id());
    assert!(app.has_free_attached_surface_id());
}
