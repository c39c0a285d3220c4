use df_forum::data::{Persisted, QueryResult};
use df_forum::engine::Engine;

#[test]
fn fresh_session_gets_aggregates() {
    let mut e = Engine::new(2);
    let batches = e.apply(
        1,
        vec![(100, Persisted::Session, 1), (100, Persisted::ViewPostsPage(0), 1)],
    );
    assert_eq!(
        batches,
        vec![(
            1u64,
            vec![
                QueryResult::PostAggregates(0, 1),
                QueryResult::UserPostCount(0),
                QueryResult::UserLikeCount(0),
            ]
        )]
    );
}

#[test]
fn create_posts_fills_first_page() {
    let mut e = Engine::new(2);
    e.apply(
        1,
        vec![(100, Persisted::Session, 1), (100, Persisted::ViewPostsPage(0), 1)],
    );
    let batches = e.apply(
        1,
        vec![
            (5, Persisted::Post, 1),
            (6, Persisted::Post, 1),
            (7, Persisted::Post, 1),
        ],
    );
    assert_eq!(
        batches,
        vec![(
            1u64,
            vec![
                QueryResult::PagePost(7, 0, 0),
                QueryResult::PagePost(6, 0, 1),
                QueryResult::PostCreator(7, "100".to_owned()),
                QueryResult::PostCreator(6, "100".to_owned()),
                QueryResult::PostTotalLikes(7, 0),
                QueryResult::PostTotalLikes(6, 0),
                QueryResult::PostLikedByUser(7, false),
                QueryResult::PostLikedByUser(6, false),
                QueryResult::PostAggregates(3, 2),
                QueryResult::UserPostCount(3),
            ]
        )]
    );
}

#[test]
fn retract_post_backfills_page() {
    let mut e = Engine::new(2);
    e.apply(
        1,
        vec![(100, Persisted::Session, 1), (100, Persisted::ViewPostsPage(0), 1)],
    );
    e.apply(
        1,
        vec![
            (5, Persisted::Post, 1),
            (6, Persisted::Post, 1),
            (7, Persisted::Post, 1),
        ],
    );
    let batches = e.apply(1, vec![(7, Persisted::Post, -1)]);
    assert_eq!(
        batches,
        vec![(
            1u64,
            vec![
                QueryResult::DeletePost(7),
                QueryResult::PagePost(6, 0, 0),
                QueryResult::PagePost(5, 0, 1),
                QueryResult::PostCreator(5, "100".to_owned()),
                QueryResult::PostTotalLikes(5, 0),
                QueryResult::PostLikedByUser(5, false),
                QueryResult::PostAggregates(2, 1),
                QueryResult::UserPostCount(2),
            ]
        )]
    );
}

#[test]
fn like_notifies_viewer_only() {
    let mut e = Engine::new(2);
    e.apply(
        1,
        vec![(100, Persisted::Session, 1), (100, Persisted::ViewPostsPage(0), 1)],
    );
    e.apply(
        1,
        vec![
            (5, Persisted::Post, 1),
            (6, Persisted::Post, 1),
            (7, Persisted::Post, 1),
        ],
    );
    e.apply(1, vec![(7, Persisted::Post, -1)]);
    // a third session watches a page that does not contain post 5
    e.apply(
        3,
        vec![(300, Persisted::Session, 1), (300, Persisted::ViewPostsPage(1), 1)],
    );
    let batches = e.apply(1, vec![(100, Persisted::PostLike(5), 1)]);
    assert_eq!(
        batches,
        vec![(
            1u64,
            vec![
                QueryResult::PostTotalLikes(5, 1),
                QueryResult::PostLikedByUser(5, true),
                QueryResult::UserLikeCount(1),
            ]
        )]
    );
}

#[test]
fn second_session_gets_full_page() {
    let mut e = Engine::new(2);
    e.apply(
        1,
        vec![(100, Persisted::Session, 1), (100, Persisted::ViewPostsPage(0), 1)],
    );
    e.apply(
        1,
        vec![
            (5, Persisted::Post, 1),
            (6, Persisted::Post, 1),
            (7, Persisted::Post, 1),
        ],
    );
    e.apply(1, vec![(7, Persisted::Post, -1)]);
    e.apply(1, vec![(100, Persisted::PostLike(5), 1)]);
    let batches = e.apply(
        2,
        vec![(200, Persisted::Session, 1), (200, Persisted::ViewPostsPage(0), 1)],
    );
    assert_eq!(
        batches,
        vec![(
            2u64,
            vec![
                QueryResult::PagePost(6, 0, 0),
                QueryResult::PagePost(5, 0, 1),
                QueryResult::PostCreator(6, "100".to_owned()),
                QueryResult::PostCreator(5, "100".to_owned()),
                QueryResult::PostTotalLikes(6, 0),
                QueryResult::PostTotalLikes(5, 1),
                QueryResult::PostLikedByUser(6, false),
                QueryResult::PostLikedByUser(5, false),
                QueryResult::PostAggregates(2, 1),
                QueryResult::UserPostCount(0),
                QueryResult::UserLikeCount(0),
            ]
        )]
    );
}

#[test]
fn empty_transaction_emits_nothing() {
    let mut e = Engine::new(2);
    e.apply(
        1,
        vec![(100, Persisted::Session, 1), (100, Persisted::ViewPostsPage(0), 1)],
    );
    let batches = e.apply(1, vec![]);
    assert_eq!(batches, vec![]);
}

#[test]
fn page_change_moves_view() {
    let mut e = Engine::new(2);
    e.apply(
        1,
        vec![(100, Persisted::Session, 1), (100, Persisted::ViewPostsPage(0), 1)],
    );
    e.apply(
        1,
        vec![
            (5, Persisted::Post, 1),
            (6, Persisted::Post, 1),
            (7, Persisted::Post, 1),
        ],
    );
    let batches = e.apply(
        1,
        vec![
            (100, Persisted::ViewPostsPage(0), -1),
            (100, Persisted::ViewPostsPage(1), 1),
        ],
    );
    assert_eq!(
        batches,
        vec![(
            1u64,
            vec![
                QueryResult::DeletePost(7),
                QueryResult::DeletePost(6),
                QueryResult::PagePost(5, 1, 0),
                QueryResult::PostCreator(5, "100".to_owned()),
                QueryResult::PostTotalLikes(5, 0),
                QueryResult::PostLikedByUser(5, false),
            ]
        )]
    );
}

#[test]
fn removed_post_never_returns() {
    let mut e = Engine::new(2);
    e.apply(
        1,
        vec![(100, Persisted::Session, 1), (100, Persisted::ViewPostsPage(0), 1)],
    );
    e.apply(1, vec![(5, Persisted::Post, 1)]);
    let gone = e.apply(1, vec![(5, Persisted::Post, -1)]);
    assert_eq!(
        gone,
        vec![(
            1u64,
            vec![
                QueryResult::DeletePost(5),
                QueryResult::PostAggregates(0, 1),
                QueryResult::UserPostCount(0),
            ]
        )]
    );
    // re-asserting the same post changes nothing: a retraction wins for good
    let batches = e.apply(1, vec![(5, Persisted::Post, 1)]);
    assert_eq!(batches, vec![]);
}

#[test]
fn same_batch_add_and_retract_counts_zero() {
    let mut e = Engine::new(2);
    e.apply(
        1,
        vec![(100, Persisted::Session, 1), (100, Persisted::ViewPostsPage(0), 1)],
    );
    let batches = e.apply(1, vec![(5, Persisted::Post, 1), (5, Persisted::Post, -1)]);
    assert_eq!(batches, vec![]);
}

#[test]
fn like_of_missing_post_matches_nothing() {
    let mut e = Engine::new(2);
    e.apply(
        1,
        vec![(100, Persisted::Session, 1), (100, Persisted::ViewPostsPage(0), 1)],
    );
    let batches = e.apply(1, vec![(100, Persisted::PostLike(99), 1)]);
    assert_eq!(batches, vec![]);
}

#[test]
fn post_fields_follow_the_post() {
    let mut e = Engine::new(2);
    e.apply(
        1,
        vec![(100, Persisted::Session, 1), (100, Persisted::ViewPostsPage(0), 1)],
    );
    let batches = e.apply(
        1,
        vec![
            (5, Persisted::Post, 1),
            (5, Persisted::PostTitle("Zerg".to_owned()), 1),
            (5, Persisted::PostBody("Zerg Info".to_owned()), 1),
        ],
    );
    assert_eq!(
        batches,
        vec![(
            1u64,
            vec![
                QueryResult::PagePost(5, 0, 0),
                QueryResult::PostTitle(5, "Zerg".to_owned()),
                QueryResult::PostBody(5, "Zerg Info".to_owned()),
                QueryResult::PostCreator(5, "100".to_owned()),
                QueryResult::PostTotalLikes(5, 0),
                QueryResult::PostLikedByUser(5, false),
                QueryResult::PostAggregates(1, 1),
                QueryResult::UserPostCount(1),
            ]
        )]
    );
    // changing the title is retract-old plus insert-new; only the new value
    // is announced
    let retitled = e.apply(
        1,
        vec![
            (5, Persisted::PostTitle("Zerg".to_owned()), -1),
            (5, Persisted::PostTitle("Protoss".to_owned()), 1),
        ],
    );
    assert_eq!(
        retitled,
        vec![(1u64, vec![QueryResult::PostTitle(5, "Protoss".to_owned())])]
    );
}

#[test]
fn aggregates_track_post_count() {
    let mut e = Engine::new(2);
    let opened = e.apply(1, vec![(55, Persisted::ViewPostsPage(0), 1)]);
    assert_eq!(opened, vec![(1u64, vec![QueryResult::PostAggregates(0, 1)])]);
    let created = e.apply(
        1,
        vec![
            (5, Persisted::Post, 1),
            (6, Persisted::Post, 1),
            (7, Persisted::Post, 1),
        ],
    );
    assert_eq!(
        created,
        vec![(
            1u64,
            vec![
                QueryResult::PagePost(7, 0, 0),
                QueryResult::PagePost(6, 0, 1),
                QueryResult::PostTotalLikes(7, 0),
                QueryResult::PostTotalLikes(6, 0),
                QueryResult::PostAggregates(3, 2),
            ]
        )]
    );
    let one_gone = e.apply(1, vec![(5, Persisted::Post, -1)]);
    assert_eq!(one_gone, vec![(1u64, vec![QueryResult::PostAggregates(2, 1)])]);
    let all_gone = e.apply(1, vec![(6, Persisted::Post, -1), (7, Persisted::Post, -1)]);
    assert_eq!(
        all_gone,
        vec![(
            1u64,
            vec![
                QueryResult::DeletePost(7),
                QueryResult::DeletePost(6),
                QueryResult::PostAggregates(0, 1),
            ]
        )]
    );
}

#[test]
fn user_post_count_shared_across_sessions() {
    let mut e = Engine::new(2);
    let first = e.apply(
        1,
        vec![(55, Persisted::Session, 1), (5, Persisted::Post, 1), (6, Persisted::Post, 1)],
    );
    assert_eq!(
        first,
        vec![(1u64, vec![QueryResult::UserPostCount(2), QueryResult::UserLikeCount(0)])]
    );
    let same_user = e.apply(2, vec![(55, Persisted::Session, 1)]);
    assert_eq!(
        same_user,
        vec![(2u64, vec![QueryResult::UserPostCount(2), QueryResult::UserLikeCount(0)])]
    );
    let other_user = e.apply(3, vec![(56, Persisted::Session, 1)]);
    assert_eq!(
        other_user,
        vec![(3u64, vec![QueryResult::UserPostCount(0), QueryResult::UserLikeCount(0)])]
    );
    let removed = e.apply(2, vec![(5, Persisted::Post, -1)]);
    assert_eq!(
        removed,
        vec![
            (1u64, vec![QueryResult::UserPostCount(1)]),
            (2u64, vec![QueryResult::UserPostCount(1)]),
        ]
    );
}

#[test]
fn user_like_count_follows_post_life() {
    let mut e = Engine::new(2);
    let first = e.apply(
        1,
        vec![
            (55, Persisted::Session, 1),
            (5, Persisted::Post, 1),
            (55, Persisted::PostLike(5), 1),
        ],
    );
    assert_eq!(
        first,
        vec![(1u64, vec![QueryResult::UserPostCount(1), QueryResult::UserLikeCount(1)])]
    );
    let removed = e.apply(1, vec![(5, Persisted::Post, -1)]);
    assert_eq!(
        removed,
        vec![(1u64, vec![QueryResult::UserPostCount(0), QueryResult::UserLikeCount(0)])]
    );
}

#[test]
fn latest_page_wins_and_returns() {
    let mut e = Engine::new(2);
    e.apply(
        1,
        vec![(100, Persisted::Session, 1), (100, Persisted::ViewPostsPage(0), 1)],
    );
    e.apply(
        1,
        vec![
            (5, Persisted::Post, 1),
            (6, Persisted::Post, 1),
            (7, Persisted::Post, 1),
        ],
    );
    // both page facts stay asserted; the most recently applied one wins
    let moved = e.apply(1, vec![(100, Persisted::ViewPostsPage(1), 1)]);
    assert_eq!(
        moved,
        vec![(
            1u64,
            vec![
                QueryResult::DeletePost(7),
                QueryResult::DeletePost(6),
                QueryResult::PagePost(5, 1, 0),
                QueryResult::PostCreator(5, "100".to_owned()),
                QueryResult::PostTotalLikes(5, 0),
                QueryResult::PostLikedByUser(5, false),
            ]
        )]
    );
    // retracting the newer page fact falls back to the surviving one
    let back = e.apply(1, vec![(100, Persisted::ViewPostsPage(1), -1)]);
    assert_eq!(
        back,
        vec![(
            1u64,
            vec![
                QueryResult::DeletePost(5),
                QueryResult::PagePost(7, 0, 0),
                QueryResult::PagePost(6, 0, 1),
                QueryResult::PostCreator(7, "100".to_owned()),
                QueryResult::PostCreator(6, "100".to_owned()),
                QueryResult::PostTotalLikes(7, 0),
                QueryResult::PostTotalLikes(6, 0),
                QueryResult::PostLikedByUser(7, false),
                QueryResult::PostLikedByUser(6, false),
            ]
        )]
    );
}

#[test]
fn unlike_restores_zero() {
    let mut e = Engine::new(2);
    e.apply(
        1,
        vec![(100, Persisted::Session, 1), (100, Persisted::ViewPostsPage(0), 1)],
    );
    e.apply(1, vec![(5, Persisted::Post, 1)]);
    let liked = e.apply(1, vec![(100, Persisted::PostLike(5), 1)]);
    assert_eq!(
        liked,
        vec![(
            1u64,
            vec![
                QueryResult::PostTotalLikes(5, 1),
                QueryResult::PostLikedByUser(5, true),
                QueryResult::UserLikeCount(1),
            ]
        )]
    );
    let unliked = e.apply(1, vec![(100, Persisted::PostLike(5), -1)]);
    assert_eq!(
        unliked,
        vec![(
            1u64,
            vec![
                QueryResult::PostTotalLikes(5, 0),
                QueryResult::PostLikedByUser(5, false),
                QueryResult::UserLikeCount(0),
            ]
        )]
    );
}
