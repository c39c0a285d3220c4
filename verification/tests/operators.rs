use df_forum::add_rm_str;
use df_forum::consolidate::consolidate;
use df_forum::data::{HandlerError, Persisted, Post, Update};
use df_forum::pages::{page_slice_x, post_order_x};
use df_forum::results::dec_string;

fn upd(addr: u64, id: u64, fact: Persisted, time: u64, diff: i64) -> Update {
    Update { addr, id, fact, time, diff }
}

#[test]
fn consolidate_merges_and_drops() {
    let v = vec![
        upd(1, 5, Persisted::Post, 1, 1),
        upd(1, 5, Persisted::Post, 1, 1),
        upd(1, 6, Persisted::Post, 1, 1),
        upd(1, 6, Persisted::Post, 1, -1),
        upd(1, 5, Persisted::Post, 2, -1),
    ];
    let c = consolidate(&v);
    assert_eq!(
        c,
        vec![upd(1, 5, Persisted::Post, 1, 2), upd(1, 5, Persisted::Post, 2, -1)]
    );
}

#[test]
fn consolidate_keeps_distinct_times_apart() {
    let v = vec![
        upd(1, 5, Persisted::ViewPostsPage(0), 1, 1),
        upd(1, 5, Persisted::ViewPostsPage(0), 2, 1),
    ];
    let c = consolidate(&v);
    assert_eq!(c, v);
}

#[test]
fn consolidate_is_idempotent_on_samples() {
    let v = vec![
        upd(1, 5, Persisted::Post, 1, 1),
        upd(2, 5, Persisted::Post, 1, 1),
        upd(1, 5, Persisted::Post, 1, -1),
        upd(1, 7, Persisted::PostLike(5), 2, 1),
        upd(1, 7, Persisted::PostLike(5), 2, -1),
        upd(1, 5, Persisted::PostTitle("a".to_owned()), 3, 1),
    ];
    let once = consolidate(&v);
    let twice = consolidate(&once);
    assert_eq!(twice, once);
    let empty: Vec<Update> = Vec::new();
    let c = consolidate(&empty);
    assert_eq!(c, empty);
}

#[test]
fn add_rm_labels() {
    assert_eq!(add_rm_str(&1), "add");
    assert_eq!(add_rm_str(&-1), "rm");
    assert_eq!(add_rm_str(&0), "rm");
}

#[test]
fn decimal_rendering() {
    assert_eq!(dec_string(0), "0");
    assert_eq!(dec_string(7), "7");
    assert_eq!(dec_string(10), "10");
    assert_eq!(dec_string(45007), "45007");
    assert_eq!(dec_string(u64::MAX), "18446744073709551615");
}

#[test]
fn data_carriers_hold_their_fields() {
    let p = Post {
        title: "Zerg".to_owned(),
        body: "Zerg Info".to_owned(),
        user_id: 100,
        likes: 3,
    };
    assert_eq!(p.title, "Zerg");
    assert_eq!(p.body, "Zerg Info");
    assert_eq!(p.user_id, 100);
    assert_eq!(p.likes, 3);
    let e = HandlerError::Handshake;
    assert!(matches!(e, HandlerError::Handshake));
}

#[test]
fn post_order_and_slices() {
    let mut log = vec![
        upd(1, 5, Persisted::Post, 1, 1),
        upd(1, 6, Persisted::Post, 1, 1),
        upd(1, 7, Persisted::Post, 2, 1),
    ];
    let ord = post_order_x(&log);
    assert_eq!(ord, vec![7, 6, 5]);
    assert_eq!(page_slice_x(&log, &ord, 0, 2), vec![7, 6]);
    assert_eq!(page_slice_x(&log, &ord, 1, 2), vec![5]);
    assert_eq!(page_slice_x(&log, &ord, 2, 2), Vec::<u64>::new());
    log.push(upd(1, 5, Persisted::Post, 3, -1));
    let ord = post_order_x(&log);
    assert_eq!(ord, vec![7, 6]);
    assert_eq!(page_slice_x(&log, &ord, 0, 2), vec![7, 6]);
    assert_eq!(page_slice_x(&log, &ord, 1, 2), Vec::<u64>::new());
}
