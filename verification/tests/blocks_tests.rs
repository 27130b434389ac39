use feth::blocks::{block_range, place_blocks, BlockError, BlockInfo, BlockRange, Fetched};
use feth::uint256::Uint256;

fn u(v: u64) -> Uint256 {
    Uint256::from_u64(v)
}

fn block(number: u64) -> BlockInfo {
    BlockInfo::first(number, u(1_700_000_000 + number), number as usize)
}

#[test]
fn a_count_of_blocks_is_walked_from_the_start() {
    assert_eq!(
        block_range(10, 5, false),
        Ok(BlockRange { previous: 9, first: 10, end: 15 })
    );
    assert_eq!(block_range(0, 1, false), Ok(BlockRange { previous: 0, first: 0, end: 1 }));
    assert_eq!(block_range(1, 1, false), Ok(BlockRange { previous: 0, first: 1, end: 2 }));
}

#[test]
fn following_walks_all_the_numbers_there_are() {
    assert_eq!(
        block_range(10, 0, true),
        Ok(BlockRange { previous: 9, first: 10, end: u64::MAX })
    );
    assert_eq!(
        block_range(0, 7, true),
        Ok(BlockRange { previous: 0, first: 0, end: u64::MAX })
    );
    assert_eq!(
        block_range(u64::MAX, u64::MAX, true),
        Ok(BlockRange { previous: u64::MAX - 1, first: u64::MAX, end: u64::MAX })
    );
}

#[test]
fn no_block_and_no_following_is_refused() {
    assert_eq!(block_range(10, 0, false), Err(BlockError::ZeroCount));
    assert_eq!(block_range(0, 0, false), Err(BlockError::ZeroCount));
}

#[test]
fn a_range_beyond_the_last_number_is_refused() {
    assert_eq!(block_range(u64::MAX, 1, false), Err(BlockError::OutOfRange));
    assert_eq!(block_range(2, u64::MAX - 1, false), Err(BlockError::OutOfRange));
    assert_eq!(
        block_range(1, u64::MAX - 1, false),
        Ok(BlockRange { previous: 0, first: 1, end: u64::MAX })
    );
}

#[test]
fn block_time_is_the_time_since_the_block_before() {
    let first = BlockInfo::first(7, u(1000), 3);
    assert_eq!(first, BlockInfo { number: 7, timestamp: u(1000), count: 3, block_time: 0 });
    assert_eq!(
        first.next(8, u(1017), 0),
        Some(BlockInfo { number: 8, timestamp: u(1017), count: 0, block_time: 17 })
    );
    assert_eq!(
        first.next(8, u(1000), 1),
        Some(BlockInfo { number: 8, timestamp: u(1000), count: 1, block_time: 0 })
    );
    assert_eq!(first.next(8, u(999), 1), None);
    // 2^64 + 999 is u64::MAX seconds after 1000, one second more no longer fits
    let last = Uint256 { w0: 999, w1: 1, w2: 0, w3: 0 };
    assert_eq!(first.next(8, last, 1).unwrap().block_time, u64::MAX);
    let late = Uint256 { w0: 1000, w1: 1, w2: 0, w3: 0 };
    assert_eq!(first.next(8, late, 1), None);
    assert_eq!(
        BlockInfo::first(7, u(0), 3).next(8, u(u64::MAX), 1).unwrap().block_time,
        u64::MAX
    );
}

#[test]
fn a_block_is_printed_as_four_numbers() {
    assert_eq!(
        BlockInfo { number: 7, timestamp: u(1_700_000_000), count: 12, block_time: 15 }.to_line(),
        "7,1700000000,12,15"
    );
    assert_eq!(
        BlockInfo { number: 0, timestamp: u(0), count: 0, block_time: 0 }.to_line(),
        "0,0,0,0"
    );
    assert_eq!(
        BlockInfo {
            number: u64::MAX,
            timestamp: Uint256 { w0: 0, w1: 1, w2: 0, w3: 0 },
            count: 10,
            block_time: 100,
        }
        .to_line(),
        "18446744073709551615,18446744073709551616,10,100"
    );
}

#[test]
fn results_are_put_in_the_order_of_their_numbers() {
    let found = vec![
        Fetched { number: 12, block: Some(block(12)) },
        Fetched { number: 10, block: Some(block(10)) },
        Fetched { number: 13, block: None },
        Fetched { number: 11, block: Some(block(11)) },
    ];
    assert_eq!(
        place_blocks(10, 14, &found),
        Some(vec![Some(block(10)), Some(block(11)), Some(block(12)), None])
    );
    assert_eq!(place_blocks(10, 12, &Vec::new()), Some(vec![None, None]));
    assert_eq!(place_blocks(10, 10, &Vec::new()), Some(Vec::new()));
}

#[test]
fn a_later_result_replaces_an_earlier_one() {
    let found = vec![
        Fetched { number: 10, block: Some(block(10)) },
        Fetched { number: 10, block: None },
        Fetched { number: 11, block: None },
        Fetched { number: 11, block: Some(block(11)) },
    ];
    assert_eq!(place_blocks(10, 12, &found), Some(vec![None, Some(block(11))]));
}

#[test]
fn results_outside_the_range_have_no_place() {
    let low = vec![Fetched { number: 9, block: Some(block(9)) }];
    assert_eq!(place_blocks(10, 12, &low), None);
    let high = vec![Fetched { number: 12, block: Some(block(12)) }];
    assert_eq!(place_blocks(10, 12, &high), None);
    assert_eq!(place_blocks(12, 10, &Vec::new()), None);
}
