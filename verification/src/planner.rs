//! Splitting the configured channels into shards, each small enough for
//! one connection.

use vstd::prelude::*;

verus! {

/// How many channels one shard takes at most, unless told otherwise.
pub const MAX_PER_SHARD: usize = 50;

/// Seconds to wait between the start of one shard and the next, so that
/// the joins of all shards together stay under the service's rate limit.
pub const STAGGER_SECS: u64 = 30;

/// The channels that one shard serves, and its place among the shards.
#[derive(Debug, Clone)]
pub struct ShardPlan {
    pub channels: Vec<String>,
    pub shard_index: usize,
}

/// What `str::to_lowercase` makes of `s`.
pub uninterp spec fn lowercase(s: Seq<char>) -> Seq<char>;

/// Lower-cases `s` with `str::to_lowercase`, which goes by the Unicode
/// tables. Not proved: the result is a function of the characters of `s`.
#[verifier::external_body]
fn to_lowercase(s: &str) -> (lowered: String)
    ensures
        lowered@ == lowercase(s@),
{
    s.to_lowercase()
}

/// `s` with a `#` in front, unless it has one already.
pub open spec fn with_hash(s: Seq<char>) -> Seq<char> {
    if s.len() > 0 && s[0] == '#' {
        s
    } else {
        seq!['#'] + s
    }
}

/// The canonical form of a channel name: lower case, with a leading `#`.
pub open spec fn canonical(name: Seq<char>) -> Seq<char> {
    with_hash(lowercase(name))
}

/// Quotient of `a` by `b`, rounded up.
pub open spec fn ceil_div(a: int, b: int) -> int {
    (a + b - 1) / b
}

/// Number of shards for `n` channels with at most `max` per shard: one
/// while `n` is below `max`, else `n / max` rounded up.
pub open spec fn shard_count(n: int, max: int) -> int {
    if n < max {
        1
    } else {
        ceil_div(n, max)
    }
}

/// Number of channels in every shard but the last: `n` divided by the
/// number of shards, rounded up.
pub open spec fn chunk_size(n: int, max: int) -> int {
    ceil_div(n, shard_count(n, max))
}

/// The channels of shard `i` when each shard takes `size` of them in turn.
pub open spec fn chunk(channels: Seq<String>, size: int, i: int) -> Seq<String> {
    let from = if i * size < channels.len() {
        i * size
    } else {
        channels.len() as int
    };
    let to = if from + size < channels.len() {
        from + size
    } else {
        channels.len() as int
    };
    channels.subrange(from, to)
}

/// Rounding up: the quotient is the least number of parts of size `b`
/// that cover `a`.
pub proof fn lemma_ceil_div(a: int, b: int)
    requires
        0 <= a,
        0 < b,
    ensures
        (ceil_div(a, b) - 1) * b < a || a == 0,
        a <= ceil_div(a, b) * b,
        0 <= ceil_div(a, b),
        a > 0 ==> ceil_div(a, b) == (a - 1) / b + 1,
        a == 0 ==> ceil_div(a, b) == 0,
{
    let q = (a + b - 1) / b;
    let r = (a + b - 1) % b;
    assert(a + b - 1 == q * b + r && 0 <= r < b) by (nonlinear_arith)
        requires
            q == (a + b - 1) / b,
            r == (a + b - 1) % b,
            0 < b,
            0 <= a,
    ;
    assert((q - 1) * b == q * b - b) by (nonlinear_arith);
    assert(0 <= q) by (nonlinear_arith)
        requires
            a + b - 1 == q * b + r,
            0 <= r < b,
            0 <= a,
            0 < b,
    ;
    if a > 0 {
        let q2 = (a - 1) / b;
        let r2 = (a - 1) % b;
        assert(a - 1 == q2 * b + r2 && 0 <= r2 < b) by (nonlinear_arith)
            requires
                q2 == (a - 1) / b,
                r2 == (a - 1) % b,
                0 < b,
                0 < a,
        ;
        assert(q == q2 + 1) by (nonlinear_arith)
            requires
                a + b - 1 == q * b + r,
                a - 1 == q2 * b + r2,
                0 <= r < b,
                0 <= r2 < b,
                0 < b,
        ;
    } else {
        assert(q == 0) by (nonlinear_arith)
            requires
                b - 1 == q * b + r,
                0 <= r < b,
                0 < b,
        ;
    }
}

/// The shards cover the channels: there is at least one shard, no shard
/// is larger than `max`, and all shards but the last, taken together, leave
/// at least one channel over where there is any channel at all.
pub proof fn lemma_shards_cover(n: int, max: int)
    requires
        0 <= n,
        0 < max,
    ensures
        1 <= shard_count(n, max),
        0 <= chunk_size(n, max) <= max,
        n <= shard_count(n, max) * chunk_size(n, max),
        n > 0 ==> (shard_count(n, max) - 1) * chunk_size(n, max) < n,
        n > 0 ==> chunk_size(n, max) > 0,
{
    let k = shard_count(n, max);
    lemma_ceil_div(n, max);
    if n >= max {
        assert(k >= 1) by (nonlinear_arith)
            requires
                n <= k * max,
                n >= max,
                0 < max,
        ;
    }
    lemma_ceil_div(n, k);
    let size = chunk_size(n, max);
    assert(size <= max) by (nonlinear_arith)
        requires
            (size - 1) * k < n || n == 0,
            n <= k * max,
            size == 0 || n > 0,
            k >= 1,
            0 < max,
    ;
    assert(n <= k * size) by (nonlinear_arith)
        requires
            n <= size * k,
    ;
    if n > 0 {
        assert(size > 0) by (nonlinear_arith)
            requires
                n <= size * k,
                n > 0,
                k >= 1,
        ;
        assert((k - 1) * size < n) by (nonlinear_arith)
            requires
                (k - 1) * max < n || k == 1,
                size <= max,
                0 < size,
                k >= 1,
                n > 0,
        ;
    }
}

/// Puts a `#` before `lowered` unless it starts with one.
pub fn prefix_hash(lowered: String) -> (name: String)
    ensures
        name@ == with_hash(lowered@),
        name@.len() > 0,
        name@[0] == '#',
{
    proof {
        reveal_strlit("#");
    }
    if !lowered.as_str().is_empty() && lowered.as_str().get_char(0) == '#' {
        lowered
    } else {
        let name = "#".to_owned().concat(lowered.as_str());
        proof {
            assert("#"@ == seq!['#']);
        }
        name
    }
}

/// The canonical form of a channel name: lower case, with a leading `#`.
pub fn normalize_channel(name: &str) -> (canon: String)
    ensures
        canon@ == canonical(name@),
        canon@.len() > 0,
        canon@[0] == '#',
{
    prefix_hash(to_lowercase(name))
}

/// The canonical forms of a list of channel names, in the same order.
pub fn normalize_channels(names: &Vec<String>) -> (canon: Vec<String>)
    ensures
        canon.len() == names.len(),
        forall|i: int| 0 <= i < names.len() ==> (#[trigger] canon[i])@ == canonical(names[i]@),
{
    let mut canon: Vec<String> = Vec::new();
    let mut i: usize = 0;
    while i < names.len()
        invariant
            i <= names.len(),
            canon.len() == i,
            forall|j: int| 0 <= j < i ==> (#[trigger] canon[j])@ == canonical(names[j]@),
        decreases names.len() - i,
    {
        canon.push(normalize_channel(names[i].as_str()));
        i += 1;
    }
    canon
}

/// Number of shards for `n` channels with at most `max` per shard.
pub fn count_shards(n: usize, max: usize) -> (count: usize)
    requires
        max > 0,
    ensures
        count == shard_count(n as int, max as int),
        count >= 1,
{
    proof {
        lemma_ceil_div(n as int, max as int);
        lemma_shards_cover(n as int, max as int);
    }
    if n < max {
        1
    } else {
        (n - 1) / max + 1
    }
}

/// Seconds to wait after starting shard `index` of `count` before the
/// next one starts: the stagger, and nothing after the last shard.
pub fn startup_delay(index: usize, count: usize) -> (secs: u64)
    ensures
        secs == if index + 1 < count {
            STAGGER_SECS
        } else {
            0
        },
{
    if index < count && index + 1 < count {
        STAGGER_SECS
    } else {
        0
    }
}

/// Splits `channels` into shards of at most `max_per_shard` channels: one
/// shard while there are fewer channels than that, else as few shards as
/// can hold them, filled in order with equal shares, the last taking what
/// is left.
pub fn plan(channels: &Vec<String>, max_per_shard: usize) -> (plans: Vec<ShardPlan>)
    requires
        max_per_shard > 0,
    ensures
        plans.len() == shard_count(channels.len() as int, max_per_shard as int),
        forall|i: int|
            0 <= i < plans.len() ==> {
                &&& (#[trigger] plans[i]).shard_index == i
                &&& plans[i].channels@ == chunk(
                    channels@,
                    chunk_size(channels.len() as int, max_per_shard as int),
                    i,
                )
            },
{
    let n: usize = channels.len();
    let count: usize = count_shards(n, max_per_shard);
    let size: usize = if n == 0 {
        0
    } else {
        (n - 1) / count + 1
    };
    proof {
        lemma_ceil_div(n as int, count as int);
        lemma_shards_cover(n as int, max_per_shard as int);
    }
    let mut plans: Vec<ShardPlan> = Vec::new();
    let mut i: usize = 0;
    while i < count
        invariant
            i <= count,
            n == channels.len(),
            count == shard_count(n as int, max_per_shard as int),
            size == chunk_size(n as int, max_per_shard as int),
            n > 0 ==> (count - 1) * size < n,
            n == 0 ==> size == 0,
            plans.len() == i,
            forall|j: int|
                0 <= j < i ==> {
                    &&& (#[trigger] plans[j]).shard_index == j
                    &&& plans[j].channels@ == chunk(channels@, size as int, j)
                },
        decreases count - i,
    {
        proof {
            assert(i * size <= (count - 1) * size) by (nonlinear_arith)
                requires
                    i <= count - 1,
                    0 <= size,
            ;
        }
        let from: usize = if n == 0 {
            0
        } else {
            i * size
        };
        let to: usize = if size < n - from {
            from + size
        } else {
            n
        };
        proof {
            if n == 0 {
                assert(i * size == 0) by (nonlinear_arith)
                    requires
                        size == 0,
                ;
            }
        }
        let mut taken: Vec<String> = Vec::new();
        let mut j: usize = from;
        while j < to
            invariant
                from <= j <= to <= n,
                n == channels.len(),
                taken@ == channels@.subrange(from as int, j as int),
            decreases to - j,
        {
            taken.push(channels[j].clone());
            j += 1;
        }
        plans.push(ShardPlan { channels: taken, shard_index: i });
        i += 1;
    }
    plans
}

/// Every channel stands in exactly the shard that its position gives, at
/// the place that its position gives: the shards are contiguous, in order,
/// and together hold each channel once.
pub proof fn lemma_plan_partitions(channels: Seq<String>, max: int, j: int)
    requires
        0 < max,
        0 <= j < channels.len(),
    ensures
        ({
            let size = chunk_size(channels.len() as int, max);
            let count = shard_count(channels.len() as int, max);
            &&& size > 0
            &&& 0 <= j / size < count
            &&& 0 <= j % size < chunk(channels, size, j / size).len()
            &&& chunk(channels, size, j / size)[j % size] == channels[j]
        }),
{
    let n = channels.len() as int;
    let size = chunk_size(n, max);
    let count = shard_count(n, max);
    lemma_shards_cover(n, max);
    let q = j / size;
    let r = j % size;
    assert(j == q * size + r && 0 <= r < size && 0 <= q) by (nonlinear_arith)
        requires
            q == j / size,
            r == j % size,
            0 < size,
            0 <= j,
    ;
    assert(q < count) by (nonlinear_arith)
        requires
            j == q * size + r,
            0 <= r,
            j < n,
            n <= count * size,
            0 < size,
    ;
}

/// No shard holds more channels than the limit, and every shard but the
/// last holds the same number.
pub proof fn lemma_plan_sizes(channels: Seq<String>, max: int, i: int)
    requires
        0 < max,
        0 <= i < shard_count(channels.len() as int, max),
    ensures
        ({
            let size = chunk_size(channels.len() as int, max);
            let count = shard_count(channels.len() as int, max);
            &&& chunk(channels, size, i).len() <= size <= max
            &&& i < count - 1 ==> chunk(channels, size, i).len() == size
            &&& channels.len() > 0 ==> chunk(channels, size, i).len() > 0
        }),
{
    let n = channels.len() as int;
    let size = chunk_size(n, max);
    let count = shard_count(n, max);
    lemma_shards_cover(n, max);
    if n > 0 {
        assert(i * size <= (count - 1) * size) by (nonlinear_arith)
            requires
                i <= count - 1,
                0 <= size,
        ;
        if i < count - 1 {
            assert((i + 1) * size <= (count - 1) * size) by (nonlinear_arith)
                requires
                    i + 1 <= count - 1,
                    0 <= size,
            ;
            assert((i + 1) * size == i * size + size) by (nonlinear_arith);
        }
    } else {
        assert(i * size == 0) by (nonlinear_arith)
            requires
                size == 0,
        ;
    }
}

} // verus!
