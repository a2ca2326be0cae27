use gpu_geometry::layout::MatchRecord;
use gpu_geometry::reduce::{reduce_matches, reduce_to_items};

fn pair(left_index: u32, right_index: u32) -> MatchRecord {
    MatchRecord { left_index, right_index }
}

#[test]
fn keeps_first_occurrence_of_each_left_index() {
    let pairs = vec![pair(1, 0), pair(0, 0), pair(1, 1), pair(7, 0)];
    let kept = reduce_matches(&pairs, 3);
    assert_eq!(kept, vec![1, 0]);
}

#[test]
fn result_order_follows_the_stream_not_the_arrays() {
    let pairs = vec![pair(0, 0), pair(1, 1), pair(1, 0)];
    assert_eq!(reduce_matches(&pairs, 3), vec![0, 1]);
    let reversed = vec![pair(1, 0), pair(1, 1), pair(0, 0)];
    assert_eq!(reduce_matches(&reversed, 3), vec![1, 0]);
}

#[test]
fn one_entry_per_left_index_however_many_matches() {
    let pairs = vec![pair(2, 0), pair(2, 1), pair(2, 2), pair(2, 3)];
    assert_eq!(reduce_matches(&pairs, 5), vec![2]);
}

#[test]
fn empty_stream_reduces_to_nothing() {
    let pairs: Vec<MatchRecord> = Vec::new();
    assert_eq!(reduce_matches(&pairs, 10), Vec::<usize>::new());
}

#[test]
fn out_of_range_indices_are_dropped_not_fatal() {
    let pairs = vec![pair(9, 0), pair(1, 0), pair(100, 2)];
    assert_eq!(reduce_matches(&pairs, 2), vec![1]);
    assert_eq!(reduce_matches(&pairs, 0), Vec::<usize>::new());
}

#[test]
fn result_is_no_longer_than_either_input() {
    let pairs = vec![pair(0, 0), pair(1, 0), pair(0, 1), pair(1, 1), pair(3, 0)];
    let kept = reduce_matches(&pairs, 4);
    assert!(kept.len() <= 4);
    assert!(kept.len() <= pairs.len());
    assert_eq!(kept, vec![0, 1, 3]);
}

#[test]
fn selects_the_original_items() {
    let items: Vec<u64> = vec![100, 200, 300];
    let pairs = vec![pair(2, 0), pair(0, 1), pair(2, 1)];
    assert_eq!(reduce_to_items(&items, &pairs), vec![300, 100]);
}

/// The join scenario: three rectangles on the left, two on the right.  The
/// kernel contract makes the match stream exactly the overlapping pairs —
/// left 0 and left 1 each overlap right 0, and left 2 overlaps nothing —
/// in some nondeterministic order.  Whatever the order, the reduction keeps
/// the first two left rectangles and drops the third.
#[test]
fn join_scenario_keeps_exactly_the_intersecting_rectangles() {
    let left = vec![
        geo::Rect::new(geo::Coord { x: 0.0f32, y: 0.0 }, geo::Coord { x: 2.0, y: 2.0 }),
        geo::Rect::new(geo::Coord { x: 3.0f32, y: 3.0 }, geo::Coord { x: 5.0, y: 5.0 }),
        geo::Rect::new(geo::Coord { x: 9.0f32, y: 9.0 }, geo::Coord { x: 11.0, y: 11.0 }),
    ];
    for stream in [vec![pair(0, 0), pair(1, 0)], vec![pair(1, 0), pair(0, 0)]] {
        let filtered = reduce_to_items(&left, &stream);
        assert_eq!(filtered.len(), 2);
        assert!(filtered.contains(&left[0]));
        assert!(filtered.contains(&left[1]));
        assert!(!filtered.contains(&left[2]));
    }
}

/// Re-running the join on its result against the same right side yields the
/// same set.  The second run's match stream pairs row `k` of the new left
/// side with `j` exactly when the first stream paired original index
/// `kept[k]` with `j`; reducing it selects the same rectangles.
#[test]
fn rejoining_the_result_is_idempotent() {
    let first_stream = vec![pair(1, 0), pair(0, 0), pair(1, 1)];
    let kept = reduce_matches(&first_stream, 3);
    assert_eq!(kept, vec![1, 0]);

    let mut second_stream = Vec::new();
    for (k, &orig) in kept.iter().enumerate() {
        for p in &first_stream {
            if p.left_index as usize == orig {
                second_stream.push(pair(k as u32, p.right_index));
            }
        }
    }
    let kept2 = reduce_matches(&second_stream, kept.len());

    let reselected: Vec<usize> = kept2.iter().map(|&k| kept[k]).collect();
    let mut expected = kept.clone();
    let mut actual = reselected.clone();
    expected.sort();
    actual.sort();
    assert_eq!(actual, expected);
}
