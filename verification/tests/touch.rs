use compositor::touch::TouchContacts;

#[test]
fn contacts_take_the_lowest_free_id_and_give_it_back() {
    let mut t: TouchContacts<&str> = TouchContacts::new();
    assert!(t.is_empty());
    assert_eq!(t.down(7, 100, 3, "page"), Some(0));
    assert_eq!(t.down(7, 101, 3, "page"), Some(1));
    assert_eq!(t.down(7, 100, 3, "page"), None, "a live contact is not pressed twice");
    assert_eq!(t.up(7, 100), Some((0, 3, "page")));
    assert_eq!(t.down(8, 5, 4, "menu"), Some(0));
    assert_eq!(t.motion(8, 5).map(|(w, s, target)| (w, s, *target)), Some((0, 4, "menu")));
    assert_eq!(t.up(7, 100), None);
}

#[test]
fn retiring_an_owner_cancels_only_its_contacts() {
    let mut t: TouchContacts<u32> = TouchContacts::new();
    t.down(1, 10, 2, 100);
    t.down(2, 20, 2, 200);
    t.down(1, 11, 2, 101);
    assert!(t.has_contacts(Some(1)));
    assert!(!t.has_contacts(Some(3)));
    assert_eq!(t.retire(Some(1)), vec![100, 101]);
    assert!(!t.has_contacts(Some(1)));
    assert!(t.has_contacts(None));
    assert_eq!(t.retire(None), vec![200]);
    assert!(t.is_empty());
}
