use capsule_store::Error;
use capsule_store::Store;
use capsule_store::TimeCapsule;
use capsule_store::store::_get_time_capsule;
use capsule_store::store::do_insert_time_capsule;

fn assert_capsule(c: &TimeCapsule, id: u64, content: &str, unlock_date: u64) {
    assert_eq!(c.id, id);
    assert_eq!(c.content, content);
    assert_eq!(c.unlock_date, unlock_date);
}

fn not_found_msg(r: Result<TimeCapsule, Error>) -> String {
    match r {
        Ok(c) => panic!("expected NotFound, got capsule with id={}", c.id),
        Err(Error::NotFound { msg }) => msg,
    }
}

#[test]
fn ids_increase_from_one_without_reuse() {
    let mut s = Store::new();
    let a = s.create("a".to_string(), 10);
    let b = s.create("b".to_string(), 20);
    assert_eq!(a.id, 1);
    assert_eq!(b.id, 2);
    s.delete(2).unwrap_or_else(|_| panic!("delete failed"));
    s.delete(1).unwrap_or_else(|_| panic!("delete failed"));
    let c = s.create("c".to_string(), 30);
    assert_eq!(c.id, 3, "a deleted ID must never be reused");
    let d = s.create("d".to_string(), 40);
    assert_eq!(d.id, 4);
}

#[test]
fn get_after_create_returns_equal_capsule() {
    let mut s = Store::new();
    let created = s.create("a letter to later".to_string(), 1234);
    let got = s.get(created.id).unwrap_or_else(|_| panic!("get failed"));
    assert_eq!(got.id, created.id);
    assert_eq!(got.content, created.content);
    assert_eq!(got.unlock_date, created.unlock_date);
}

#[test]
fn update_replaces_content_and_date_only() {
    let mut s = Store::new();
    let c = s.create("before".to_string(), 5);
    let _other = s.create("untouched".to_string(), 6);
    let updated = s.update(c.id, "after".to_string(), 50).unwrap_or_else(|_| panic!("update failed"));
    assert_capsule(&updated, c.id, "after", 50);
    let got = s.get(c.id).unwrap_or_else(|_| panic!("get failed"));
    assert_capsule(&got, c.id, "after", 50);
    let other = s.get(2).unwrap_or_else(|_| panic!("get failed"));
    assert_capsule(&other, 2, "untouched", 6);
}

#[test]
fn update_unlock_date_keeps_content() {
    let mut s = Store::new();
    let c = s.create("fixed words".to_string(), 5);
    let updated = s.update_unlock_date(c.id, 99).unwrap_or_else(|_| panic!("update failed"));
    assert_capsule(&updated, c.id, "fixed words", 99);
    let got = s.get(c.id).unwrap_or_else(|_| panic!("get failed"));
    assert_capsule(&got, c.id, "fixed words", 99);
}

#[test]
fn delete_returns_last_stored_value_and_removes() {
    let mut s = Store::new();
    let c = s.create("original".to_string(), 7);
    s.update(c.id, "latest".to_string(), 8).unwrap_or_else(|_| panic!("update failed"));
    let removed = s.delete(c.id).unwrap_or_else(|_| panic!("delete failed"));
    assert_capsule(&removed, c.id, "latest", 8);
    assert!(s.get(c.id).is_err(), "get after delete must be NotFound");
    assert!(s.delete(c.id).is_err(), "second delete must be NotFound");
}

#[test]
fn absent_ids_give_not_found_with_id_in_message() {
    let mut s = Store::new();
    let msg = not_found_msg(s.get(42));
    assert!(msg.contains("42"), "message {msg:?} must name the ID");
    let msg = not_found_msg(s.update(43, "x".to_string(), 1));
    assert!(msg.contains("43"), "message {msg:?} must name the ID");
    let msg = not_found_msg(s.update_unlock_date(44, 1));
    assert!(msg.contains("44"), "message {msg:?} must name the ID");
    let msg = not_found_msg(s.delete(45));
    assert!(msg.contains("45"), "message {msg:?} must name the ID");
    let c = s.create("short lived".to_string(), 1);
    s.delete(c.id).unwrap_or_else(|_| panic!("delete failed"));
    let msg = not_found_msg(s.get(c.id));
    assert!(msg.contains("1"), "a deleted ID reads like one never created");
}

#[test]
fn not_found_messages_are_exact() {
    let mut s = Store::new();
    assert_eq!(not_found_msg(s.get(12345)), "time capsule with id=12345 not found");
    assert_eq!(
        not_found_msg(s.update(206, "x".to_string(), 1)),
        "couldn't update time capsule with id=206. item not found"
    );
    assert_eq!(
        not_found_msg(s.update_unlock_date(30, 1)),
        "couldn't update unlock date for time capsule with id=30. item not found"
    );
    assert_eq!(
        not_found_msg(s.delete(9)),
        "couldn't delete time capsule with id=9. item not found."
    );
}

#[test]
fn count_all_equals_list_all_len() {
    let mut s = Store::new();
    assert_eq!(s.count_all(), 0);
    assert_eq!(s.list_all().len(), 0);
    for i in 0..5u64 {
        s.create(format!("capsule {i}"), i * 10);
        assert_eq!(s.count_all() as usize, s.list_all().len());
    }
    s.delete(3).unwrap_or_else(|_| panic!("delete failed"));
    assert_eq!(s.count_all(), 4);
    assert_eq!(s.list_all().len(), 4);
}

#[test]
fn list_all_is_sorted_by_id() {
    let mut s = Store::new();
    for i in 0..6u64 {
        s.create(format!("c{i}"), 100 - i);
    }
    s.delete(2).unwrap_or_else(|_| panic!("delete failed"));
    s.delete(5).unwrap_or_else(|_| panic!("delete failed"));
    let all = s.list_all();
    let ids: Vec<u64> = all.iter().map(|c| c.id).collect();
    assert_eq!(ids, vec![1, 3, 4, 6]);
}

#[test]
fn list_before_is_filter_of_list_all_and_count_matches() {
    let mut s = Store::new();
    s.create("a".to_string(), 10);
    s.create("b".to_string(), 75);
    s.create("c".to_string(), 76);
    s.create("d".to_string(), 200);
    s.create("e".to_string(), 75);
    let t = 75;
    let before = s.list_before(t);
    let expected: Vec<u64> = s
        .list_all()
        .iter()
        .filter(|c| c.unlock_date <= t)
        .map(|c| c.id)
        .collect();
    let got: Vec<u64> = before.iter().map(|c| c.id).collect();
    assert_eq!(got, expected);
    assert_eq!(got, vec![1, 2, 5], "the threshold is inclusive");
    assert_eq!(s.count_before(t), before.len());
    assert_eq!(s.count_before(0), 0);
    assert_eq!(s.count_before(u64::MAX), 5);
}

#[test]
fn scenario_two_creates_listing_count_delete() {
    let mut s = Store::new();
    let first = s.create("hello".to_string(), 100);
    assert_capsule(&first, 1, "hello", 100);
    let second = s.create("world".to_string(), 50);
    assert_eq!(second.id, 2);
    let before = s.list_before(75);
    assert_eq!(before.len(), 1);
    assert_capsule(&before[0], 2, "world", 50);
    assert_eq!(s.count_before(100), 2);
    let removed = s.delete(1).unwrap_or_else(|_| panic!("delete failed"));
    assert_capsule(&removed, 1, "hello", 100);
    assert!(s.get(1).is_err());
}

#[test]
fn stored_records_survive_the_codec() {
    let mut s = Store::new();
    let text = "unicode content: años, 時間, emoji ⏳; and punctuation!";
    s.create(text.to_string(), u64::MAX);
    s.create(String::new(), 0);
    let all = s.list_all();
    assert_eq!(all.len(), 2);
    assert_eq!(all[0].content, text);
    assert_eq!(all[0].unlock_date, u64::MAX);
    assert_eq!(all[1].content, "");
    assert_eq!(all[1].unlock_date, 0);
}

#[test]
fn empty_store_queries() {
    let s = Store::new();
    assert_eq!(s.count_all(), 0);
    assert_eq!(s.count_before(u64::MAX), 0);
    assert!(s.list_all().is_empty());
    assert!(s.list_before(0).is_empty());
}

#[test]
fn low_level_insert_and_lookup() {
    let mut s = Store::new();
    let c = s.create("draft".to_string(), 11);
    let replacement = TimeCapsule { id: c.id, content: "overwritten".to_string(), unlock_date: 12 };
    do_insert_time_capsule(&mut s, &replacement);
    match _get_time_capsule(&s, &c.id) {
        Some(found) => {
            assert_eq!(found.content, "overwritten");
            assert_eq!(found.unlock_date, 12);
        }
        None => panic!("the record must be present"),
    }
    assert_eq!(_get_time_capsule(&s, &99).map(|c| c.id), None);
}
