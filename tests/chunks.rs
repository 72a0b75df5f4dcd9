use openspace_sync::chunking::{plan_chunks, ChunkRange};

fn bounds(total: i64, parts: i32) -> Vec<(i64, i64)> {
    plan_chunks(total, parts).iter().map(|c| (c.start, c.end)).collect()
}

#[test]
fn empty_file_is_one_empty_chunk() {
    let plan = plan_chunks(0, 1);
    assert_eq!(plan.len(), 1);
    assert_eq!(plan[0], ChunkRange { start: 0, end: 0 });
    assert_eq!(plan[0].content_range(0), "bytes 0--1/0");
}

#[test]
fn twenty_million_bytes_in_three_parts() {
    assert_eq!(
        bounds(20_000_000, 3),
        vec![(0, 6_666_667), (6_666_667, 13_333_334), (13_333_334, 20_000_000)]
    );
    let plan = plan_chunks(20_000_000, 3);
    assert_eq!(plan[0].content_range(20_000_000), "bytes 0-6666666/20000000");
    assert_eq!(plan[1].content_range(20_000_000), "bytes 6666667-13333333/20000000");
    assert_eq!(plan[2].content_range(20_000_000), "bytes 13333334-19999999/20000000");
}

#[test]
fn part_count_below_one_is_one() {
    assert_eq!(bounds(10, 0), vec![(0, 10)]);
    assert_eq!(bounds(10, -4), vec![(0, 10)]);
    assert_eq!(bounds(10, 1), vec![(0, 10)]);
}

#[test]
fn chunks_tile_the_file() {
    for total in [0i64, 1, 2, 7, 10, 99, 1000, 8 * 1024 * 1024 + 3] {
        for parts in [1i32, 2, 3, 4, 6, 7, 16] {
            let plan = bounds(total, parts);
            assert_eq!(plan.len(), parts as usize);
            assert_eq!(plan[0].0, 0);
            assert_eq!(plan[plan.len() - 1].1, total);
            for w in plan.windows(2) {
                assert_eq!(w[0].1, w[1].0);
            }
            for (s, e) in &plan {
                assert!(s <= e);
            }
        }
    }
}

#[test]
fn more_parts_than_bytes_leaves_empty_tail_chunks() {
    assert_eq!(bounds(2, 3), vec![(0, 1), (1, 2), (2, 2)]);
    assert_eq!(bounds(10, 6), vec![(0, 2), (2, 4), (4, 6), (6, 8), (8, 10), (10, 10)]);
}

#[test]
fn header_of_a_single_byte() {
    let c = ChunkRange { start: 0, end: 1 };
    assert_eq!(c.content_range(1), "bytes 0-0/1");
}
