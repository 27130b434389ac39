//! Walking the chain block by block: which blocks to fetch, what is kept of
//! each, and how it is printed.

use crate::uint256::{decimal, Uint256};
use vstd::prelude::*;
use vstd::string::*;

verus! {

/// What is kept of a block.
#[derive(Clone, Copy, Debug, PartialEq, Eq)]
pub struct BlockInfo {
    pub number: u64,
    /// When the block was made, in seconds.
    pub timestamp: Uint256,
    /// How many transactions it holds.
    pub count: usize,
    /// The seconds between the block before it and this one; zero where the
    /// block before it was not looked at.
    pub block_time: u64,
}

/// Why no block can be fetched.
#[derive(Clone, Copy, Debug, PartialEq, Eq, Structural)]
pub enum BlockError {
    /// No block was asked for, and the chain is not to be followed.
    ZeroCount,
    /// The last block asked for has no number.
    OutOfRange,
}

/// The blocks to walk: `previous` is fetched for its time stamp alone, then
/// the blocks from `first` up to but without `end`.
#[derive(Clone, Copy, Debug, PartialEq, Eq, Structural)]
pub struct BlockRange {
    pub previous: u64,
    pub first: u64,
    pub end: u64,
}

/// The line that a block is printed as: number, time stamp, number of
/// transactions and block time in decimal digits, with commas between them.
pub open spec fn block_line(info: BlockInfo) -> Seq<char> {
    decimal(info.number as int) + seq![','] + decimal(info.timestamp.value()) + seq![',']
        + decimal(info.count as int) + seq![','] + decimal(info.block_time as int)
}

impl BlockInfo {
    /// What is kept of a block whose predecessor was not looked at.
    pub fn first(number: u64, timestamp: Uint256, count: usize) -> (r: BlockInfo)
        ensures
            r == (BlockInfo { number, timestamp, count, block_time: 0 }),
    {
        BlockInfo { number, timestamp, count, block_time: 0 }
    }

    /// What is kept of a block that was fetched after `self`; `None` where
    /// its time stamp lies before that of `self`, or more than `u64::MAX`
    /// seconds after it.
    pub fn next(&self, number: u64, timestamp: Uint256, count: usize) -> (r: Option<BlockInfo>)
        ensures
            r is Some <==> 0 <= timestamp.value() - self.timestamp.value() <= u64::MAX,
            r is Some ==> r.unwrap().number == number && r.unwrap().timestamp == timestamp
                && r.unwrap().count == count && r.unwrap().block_time == timestamp.value()
                - self.timestamp.value(),
    {
        match timestamp.checked_sub(&self.timestamp) {
            Some(passed) => match passed.to_u64() {
                Some(block_time) => Some(BlockInfo { number, timestamp, count, block_time }),
                None => None,
            },
            None => None,
        }
    }

    /// The line that the block is printed as.
    pub fn to_line(&self) -> (r: String)
        ensures
            r@ == block_line(*self),
    {
        proof {
            reveal_strlit(",");
            assert(","@ =~= seq![',']);
        }
        let mut line = Uint256::from_u64(self.number).to_decimal();
        line.append(",");
        line.append(self.timestamp.to_decimal().as_str());
        line.append(",");
        line.append(Uint256::from_u64(self.count as u64).to_decimal().as_str());
        line.append(",");
        line.append(Uint256::from_u64(self.block_time).to_decimal().as_str());
        line
    }
}

/// The blocks to walk from `start`: `count` of them, or all that there are
/// numbers for when the chain is followed. The block before `start` is
/// fetched first, or block zero itself where `start` is zero.
pub fn block_range(start: u64, count: u64, follow: bool) -> (r: Result<BlockRange, BlockError>)
    ensures
        r == (if !follow && count == 0 {
            Err::<BlockRange, BlockError>(BlockError::ZeroCount)
        } else if !follow && start + count > u64::MAX {
            Err(BlockError::OutOfRange)
        } else {
            Ok(
                BlockRange {
                    previous: if start == 0 {
                        0
                    } else {
                        (start - 1) as u64
                    },
                    first: start,
                    end: if follow {
                        u64::MAX
                    } else {
                        (start + count) as u64
                    },
                },
            )
        }),
{
    if !follow && count == 0 {
        Err(BlockError::ZeroCount)
    } else if !follow && count > u64::MAX - start {
        Err(BlockError::OutOfRange)
    } else {
        let previous: u64 = if start == 0 {
            0
        } else {
            start - 1
        };
        let end: u64 = if follow {
            u64::MAX
        } else {
            start + count
        };
        Ok(BlockRange { previous, first: start, end })
    }
}

/// A block that was fetched, or not, under its number.
#[derive(Clone, Copy, Debug, PartialEq, Eq)]
pub struct Fetched {
    pub number: u64,
    pub block: Option<BlockInfo>,
}

/// Whether every result belongs to a block from `start` up to but without
/// `end`.
pub open spec fn all_within(start: u64, end: u64, found: Seq<Fetched>) -> bool {
    forall|k: int| 0 <= k < found.len() ==> start <= (#[trigger] found[k]).number < end
}

/// The blocks from `start` on in the order of their numbers, after the
/// results have been put in their places one by one: a place holds the last
/// result for its number, and `None` where there was no result.
pub open spec fn placed(start: u64, slots: nat, found: Seq<Fetched>) -> Seq<Option<BlockInfo>>
    decreases found.len(),
{
    if found.len() == 0 {
        Seq::new(slots, |i: int| None::<BlockInfo>)
    } else {
        let before = placed(start, slots, found.drop_last());
        let at = found.last().number - start;
        if 0 <= at < slots {
            before.update(at, found.last().block)
        } else {
            before
        }
    }
}

/// Puts results that came in any order in the order of their numbers.
/// There is no such order where `end` lies before `start`, where there are
/// more places than a list can hold, or where a result belongs to a block
/// outside the range.
pub fn place_blocks(start: u64, end: u64, found: &Vec<Fetched>) -> (r: Option<
    Vec<Option<BlockInfo>>,
>)
    ensures
        r is Some <==> start <= end && end - start <= usize::MAX && all_within(
            start,
            end,
            found@,
        ),
        r is Some ==> r.unwrap()@ == placed(start, (end - start) as nat, found@),
{
    if end < start || end - start > usize::MAX as u64 {
        return None;
    }
    let slots: usize = (end - start) as usize;
    let mut blocks: Vec<Option<BlockInfo>> = Vec::new();
    let mut n: usize = 0;
    while n < slots
        invariant
            n <= slots,
            blocks@ =~= Seq::new(n as nat, |i: int| None::<BlockInfo>),
        decreases slots - n,
    {
        blocks.push(None);
        n = n + 1;
    }
    let mut k: usize = 0;
    proof {
        assert(found@.take(0) =~= Seq::<Fetched>::empty());
    }
    while k < found.len()
        invariant
            k <= found.len(),
            start <= end,
            slots == end - start,
            blocks@.len() == slots,
            all_within(start, end, found@.take(k as int)),
            blocks@ == placed(start, slots as nat, found@.take(k as int)),
        decreases found.len() - k,
    {
        let result = found[k];
        proof {
            assert(found@.take(k + 1).drop_last() =~= found@.take(k as int));
            assert(found@.take(k + 1).last() == result);
        }
        if result.number < start || result.number >= end {
            proof {
                assert(found@[k as int] == result);
            }
            return None;
        }
        let at: usize = (result.number - start) as usize;
        blocks[at] = result.block;
        proof {
            assert forall|j: int| 0 <= j < k + 1 implies start <= (#[trigger] found@.take(
                k + 1,
            )[j]).number < end by {
                if j < k {
                    assert(found@.take(k + 1)[j] == found@.take(k as int)[j]);
                }
            }
        }
        k = k + 1;
    }
    proof {
        assert(found@.take(k as int) =~= found@);
    }
    Some(blocks)
}

} // verus!
