use omb_core::directory::{lowest_free, Directory, HandleStatus};
use omb_core::discovery::{discover, Discovery};
use omb_core::handle::WindowHandle;
use omb_core::layout::Geometry;
use omb_core::title::{parse_slot_title, parse_target_title, slot_title};

fn utf16(s: &str) -> Vec<u16> {
    s.encode_utf16().collect()
}

fn live(id: usize, title: &str) -> HandleStatus {
    HandleStatus { handle: WindowHandle::new(id), alive: true, title: utf16(title) }
}

fn dead(id: usize) -> HandleStatus {
    HandleStatus { handle: WindowHandle::new(id), alive: false, title: Vec::new() }
}

fn geometry(x: i32) -> Geometry {
    Geometry { x, y: 10, width: 1280, height: 720 }
}

#[test]
fn slot_title_parses_plain_and_padded() {
    assert_eq!(parse_slot_title(&utf16("OMB 3")), Some(3));
    assert_eq!(parse_slot_title(&utf16("OMB 12\0")), Some(12));
    assert_eq!(parse_slot_title(&utf16("OMB 7\0\0\0")), Some(7));
    assert_eq!(parse_slot_title(&utf16("OMB 007")), Some(7));
}

#[test]
fn malformed_slot_titles_name_no_slot() {
    assert_eq!(parse_slot_title(&utf16("OMB x")), None);
    assert_eq!(parse_slot_title(&utf16("OMB 3a")), None);
    assert_eq!(parse_slot_title(&utf16("OMB ")), None);
    assert_eq!(parse_slot_title(&utf16("OMB 0")), None);
    assert_eq!(parse_slot_title(&utf16("OMB -1")), None);
    assert_eq!(parse_slot_title(&utf16("omb 3")), None);
    assert_eq!(parse_slot_title(&utf16("")), None);
    assert_eq!(parse_slot_title(&utf16("OMB 99999999999999999999999")), None);
}

#[test]
fn largest_slot_title_parses() {
    let max = format!("OMB {}", usize::MAX);
    assert_eq!(parse_slot_title(&utf16(&max)), Some(usize::MAX));
}

#[test]
fn target_title_is_recognised() {
    assert!(parse_target_title(&utf16("World of Warcraft")));
    assert!(parse_target_title(&utf16("World of Warcraft\0")));
    assert!(!parse_target_title(&utf16("World of Warcraft 2")));
    assert!(!parse_target_title(&utf16("World of Warcraf")));
    assert!(!parse_target_title(&utf16("")));
}

#[test]
fn slot_title_formats_decimal() {
    assert_eq!(slot_title(1), utf16("OMB 1"));
    assert_eq!(slot_title(12), utf16("OMB 12"));
    assert_eq!(slot_title(100), utf16("OMB 100"));
    for n in 1..200usize {
        assert_eq!(parse_slot_title(&slot_title(n)), Some(n));
    }
}

#[test]
fn lowest_free_of_used_slots() {
    assert_eq!(lowest_free(&vec![1, 3, 4]), 2);
    assert_eq!(lowest_free(&vec![]), 1);
    assert_eq!(lowest_free(&vec![2, 3]), 1);
    assert_eq!(lowest_free(&vec![3, 1, 2]), 4);
    assert_eq!(lowest_free(&vec![1, 1, 1]), 2);
}

#[test]
fn lowest_free_slot_with_live_slots_one_three_four() {
    let mut d = Directory::new();
    for id in [11, 13, 14] {
        assert!(d.try_register(WindowHandle::new(id)));
    }
    let statuses = vec![live(11, "OMB 1"), live(13, "OMB 3\0"), live(14, "OMB 4")];
    assert_eq!(d.lowest_free_slot(&statuses), 2);
    assert!(d.is_registered(WindowHandle::new(13)));
}

#[test]
fn scan_ignores_unregistered_and_unslotted_windows() {
    let mut d = Directory::new();
    d.try_register(WindowHandle::new(1));
    d.try_register(WindowHandle::new(2));
    let statuses = vec![live(1, "OMB 1"), live(2, "World of Warcraft"), live(3, "OMB 2")];
    assert_eq!(d.lowest_free_slot(&statuses), 2);
}

#[test]
fn scan_prunes_destroyed_window_and_frees_its_slot() {
    let mut d = Directory::new();
    d.try_register(WindowHandle::new(1));
    d.try_register(WindowHandle::new(2));
    d.try_register(WindowHandle::new(3));
    let before = vec![live(1, "OMB 1"), live(2, "OMB 2"), live(3, "OMB 3")];
    assert_eq!(d.lowest_free_slot(&before), 4);
    let after = vec![live(1, "OMB 1"), dead(2), live(3, "OMB 3")];
    assert_eq!(d.lowest_free_slot(&after), 2);
    assert!(!d.is_registered(WindowHandle::new(2)));
    assert!(d.is_registered(WindowHandle::new(1)));
    assert!(d.is_registered(WindowHandle::new(3)));
    assert_eq!(d.handles().len(), 2);
}

#[test]
fn register_is_check_and_insert() {
    let mut d = Directory::new();
    let h = WindowHandle::new(42);
    assert!(!d.is_registered(h));
    assert!(d.try_register(h));
    assert!(!d.try_register(h));
    assert!(d.is_registered(h));
    assert_eq!(d.handles(), vec![h]);
    d.unregister(h);
    assert!(!d.is_registered(h));
    assert!(d.handles().is_empty());
}

#[test]
fn slot_binding_lookup_and_release() {
    let mut d = Directory::new();
    let a = WindowHandle::new(1);
    let b = WindowHandle::new(2);
    d.bind_slot(1, a);
    d.bind_slot(2, b);
    assert_eq!(d.lookup_slot(1), Some(a));
    assert_eq!(d.lookup_slot(2), Some(b));
    assert_eq!(d.lookup_slot(3), None);
    d.bind_slot(2, a);
    assert_eq!(d.lookup_slot(2), Some(a));
    d.release_slot(2);
    assert_eq!(d.lookup_slot(2), None);
    assert_eq!(d.lookup_slot(1), Some(a));
}

#[test]
fn swap_partner_needs_own_slot_and_distinct_target() {
    let mut d = Directory::new();
    let a = WindowHandle::new(1);
    let b = WindowHandle::new(2);
    d.bind_slot(1, a);
    d.bind_slot(2, b);
    assert_eq!(d.swap_partner(Some(1), 2), Some(b));
    assert_eq!(d.swap_partner(Some(2), 1), Some(a));
    assert_eq!(d.swap_partner(Some(1), 1), None);
    assert_eq!(d.swap_partner(Some(1), 3), None);
    assert_eq!(d.swap_partner(None, 2), None);
}

#[test]
fn release_window_keeps_slot_taken_by_another() {
    let mut d = Directory::new();
    let a = WindowHandle::new(1);
    let b = WindowHandle::new(2);
    d.try_register(a);
    d.try_register(b);
    d.bind_slot(1, a);
    d.bind_slot(2, b);
    d.release_window(a, Some(1));
    assert!(!d.is_registered(a));
    assert_eq!(d.lookup_slot(1), None);
    d.bind_slot(3, b);
    d.release_window(a, Some(3));
    assert_eq!(d.lookup_slot(3), Some(b));
    assert!(d.is_registered(b));
}

#[test]
fn discover_claims_slotted_window() {
    let mut d = Directory::new();
    let h = WindowHandle::new(5);
    let layout = vec![Some(geometry(0)), Some(geometry(1280))];
    match discover(&mut d, h, &utf16("OMB 2\0"), &Vec::new(), &layout) {
        Discovery::Claim { slot, geometry: g } => {
            assert_eq!(slot, 2);
            assert_eq!(g, Some(geometry(1280)));
        }
        other => panic!("unexpected {:?}", other),
    }
    assert!(d.is_registered(h));
    assert_eq!(d.lookup_slot(2), Some(h));
    assert!(matches!(discover(&mut d, h, &utf16("OMB 2\0"), &Vec::new(), &layout), Discovery::Known));
}

#[test]
fn discover_claims_slot_without_geometry() {
    let mut d = Directory::new();
    let layout = vec![Some(geometry(0))];
    match discover(&mut d, WindowHandle::new(9), &utf16("OMB 3"), &Vec::new(), &layout) {
        Discovery::Claim { slot, geometry: g } => {
            assert_eq!(slot, 3);
            assert_eq!(g, None);
        }
        other => panic!("unexpected {:?}", other),
    }
}

#[test]
fn discover_relabels_target_window_to_lowest_free_slot() {
    let mut d = Directory::new();
    let a = WindowHandle::new(1);
    let c = WindowHandle::new(3);
    d.try_register(a);
    d.try_register(c);
    let statuses = vec![live(1, "OMB 1"), live(3, "OMB 3")];
    let layout = vec![Some(geometry(0)), Some(geometry(1280)), Some(geometry(2560))];
    let t = WindowHandle::new(7);
    match discover(&mut d, t, &utf16("World of Warcraft\0"), &statuses, &layout) {
        Discovery::Relabel { slot, title, geometry: g } => {
            assert_eq!(slot, 2);
            assert_eq!(title, utf16("OMB 2"));
            assert_eq!(g, Some(geometry(1280)));
        }
        other => panic!("unexpected {:?}", other),
    }
    assert!(d.is_registered(t));
    assert_eq!(d.lookup_slot(2), Some(t));
}

#[test]
fn discover_ignores_other_and_malformed_titles() {
    let mut d = Directory::new();
    let h = WindowHandle::new(4);
    assert!(matches!(discover(&mut d, h, &utf16("Notepad"), &Vec::new(), &Vec::new()), Discovery::Ignore));
    assert!(matches!(discover(&mut d, h, &utf16("OMB two"), &Vec::new(), &Vec::new()), Discovery::Ignore));
    assert!(!d.is_registered(h));
}
