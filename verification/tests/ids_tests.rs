use dinotty::ids::{desktop_id_or_new, new_stream_id};

#[test]
fn fresh_ids_have_the_uuid_form() {
    let a = desktop_id_or_new(None);
    let b = desktop_id_or_new(None);
    assert_eq!(a.len(), 36);
    assert_ne!(a, b);
    assert_eq!(a.matches('-').count(), 4);
}

#[test]
fn stream_ids_start_with_ws() {
    let s = new_stream_id();
    assert!(s.starts_with("ws-"));
    assert_eq!(s.len(), 39);
}

#[test]
fn given_desktop_id_is_kept() {
    assert_eq!(desktop_id_or_new(Some("desk".to_string())), "desk");
    assert_eq!(desktop_id_or_new(None).len(), 36);
}
