use capsule_store::Error;
use capsule_store::Store;
use capsule_store::TimeCapsule;
use capsule_store::TimeCapsulePayload;
use capsule_store::handlers::add_time_capsule;
use capsule_store::handlers::delete_time_capsule;
use capsule_store::handlers::get_all_time_capsules;
use capsule_store::handlers::get_time_capsule;
use capsule_store::handlers::get_time_capsules_before_date;
use capsule_store::handlers::get_time_capsules_count_before_date;
use capsule_store::handlers::get_total_time_capsules;
use capsule_store::handlers::update_time_capsule;
use capsule_store::handlers::update_unlock_date;

fn payload(content: &str, unlock_date: u64) -> TimeCapsulePayload {
    TimeCapsulePayload { content: content.to_string(), unlock_date }
}

fn must_add(s: &mut Store, content: &str, unlock_date: u64) -> TimeCapsule {
    match add_time_capsule(s, payload(content, unlock_date)) {
        Some(c) => c,
        None => panic!("creation cannot fail"),
    }
}

#[test]
fn handlers_cover_the_call_surface() {
    let mut s = Store::new();
    let a = must_add(&mut s, "first", 30);
    let b = must_add(&mut s, "second", 60);
    assert_eq!((a.id, b.id), (1, 2));

    let got = get_time_capsule(&s, 1).unwrap_or_else(|_| panic!("get failed"));
    assert_eq!(got.content, "first");

    let updated =
        update_time_capsule(&mut s, 1, payload("first, rewritten", 35)).unwrap_or_else(|_| panic!("update failed"));
    assert_eq!(updated.content, "first, rewritten");
    assert_eq!(updated.unlock_date, 35);

    let redated = update_unlock_date(&mut s, 2, 31).unwrap_or_else(|_| panic!("update failed"));
    assert_eq!(redated.content, "second");
    assert_eq!(redated.unlock_date, 31);

    assert_eq!(get_total_time_capsules(&s), 2);
    let all = get_all_time_capsules(&s);
    assert_eq!(all.len(), 2);
    assert_eq!(all[0].id, 1);
    assert_eq!(all[1].id, 2);

    let before = get_time_capsules_before_date(&s, 31);
    let ids: Vec<u64> = before.iter().map(|c| c.id).collect();
    assert_eq!(ids, vec![2]);
    assert_eq!(get_time_capsules_count_before_date(&s, 31), 1);
    assert_eq!(get_time_capsules_count_before_date(&s, 35), 2);

    let removed = delete_time_capsule(&mut s, 1).unwrap_or_else(|_| panic!("delete failed"));
    assert_eq!(removed.content, "first, rewritten");
    assert_eq!(get_total_time_capsules(&s), 1);

    match get_time_capsule(&s, 1) {
        Ok(c) => panic!("expected NotFound, got id={}", c.id),
        Err(Error::NotFound { msg }) => assert_eq!(msg, "time capsule with id=1 not found"),
    }
}

#[test]
fn handler_errors_name_the_operation() {
    let mut s = Store::new();
    match update_time_capsule(&mut s, 8, payload("x", 1)) {
        Ok(_) => panic!("expected NotFound"),
        Err(Error::NotFound { msg }) => {
            assert_eq!(msg, "couldn't update time capsule with id=8. item not found")
        }
    }
    match delete_time_capsule(&mut s, 8) {
        Ok(_) => panic!("expected NotFound"),
        Err(Error::NotFound { msg }) => {
            assert_eq!(msg, "couldn't delete time capsule with id=8. item not found.")
        }
    }
    match update_unlock_date(&mut s, 8, 1) {
        Ok(_) => panic!("expected NotFound"),
        Err(Error::NotFound { msg }) => {
            assert_eq!(
                msg,
                "couldn't update unlock date for time capsule with id=8. item not found"
            )
        }
    }
}
