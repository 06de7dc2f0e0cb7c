use crate::message::{get_message_len, message_lens, messages_view, Message};
use crate::sum::{lemma_sum_prefix_le, lemma_sum_take_next, sum};
use vstd::prelude::*;

verus! {

/// How many of the oldest messages may be summarized at most: all but the
/// three most recent ones, and at least one.
pub open spec fn summary_limit(n: nat) -> nat {
    if n > 3 {
        (n - 3) as nat
    } else {
        1
    }
}

/// `count` is the number of oldest messages, of sizes `lens`, to summarize:
/// messages are taken from the oldest on while fewer than the limit have
/// been taken and the sizes taken so far stay below half of the total.
pub open spec fn is_summary_count(lens: Seq<nat>, count: nat) -> bool {
    let limit = summary_limit(lens.len());
    let target = sum(lens) / 2;
    &&& count <= lens.len()
    &&& forall|i: int| 0 <= i < count ==> i < limit && #[trigger] sum(lens.take(i)) < target
    &&& count == lens.len() || count >= limit || sum(lens.take(count as int)) >= target
}

/// The number of oldest messages to summarize when the context window is
/// exceeded (see `is_summary_count`).
pub fn num_to_summarize(messages: &Vec<Message>) -> (count: usize)
    requires
        sum(message_lens(messages_view(messages@))) <= usize::MAX,
    ensures
        is_summary_count(message_lens(messages_view(messages@)), count as nat),
        messages@.len() > 3 ==> messages@.len() - count >= 3,
{
    let ghost lens = message_lens(messages_view(messages@));
    let n = messages.len();
    let mut total: usize = 0;
    let mut i: usize = 0;
    while i < n
        invariant
            n == messages@.len(),
            lens == message_lens(messages_view(messages@)),
            lens.len() == n,
            sum(lens) <= usize::MAX,
            0 <= i <= n,
            total == sum(lens.take(i as int)),
        decreases n - i,
    {
        proof {
            lemma_sum_take_next(lens, i as int);
            lemma_sum_prefix_le(lens, i as int + 1);
            assert(lens[i as int] == crate::message::message_len(messages@[i as int]@));
        }
        let m = get_message_len(&messages[i]);
        total = total + m;
        i = i + 1;
    }
    proof {
        assert(lens.take(n as int) =~= lens);
    }
    let target = total / 2;
    let limit: usize = if n > 3 {
        n - 3
    } else {
        1
    };
    let mut running: usize = 0;
    let mut count: usize = 0;
    while count < n && count < limit && running < target
        invariant
            n == messages@.len(),
            lens == message_lens(messages_view(messages@)),
            lens.len() == n,
            sum(lens) <= usize::MAX,
            total == sum(lens),
            target == sum(lens) / 2,
            limit == summary_limit(n as nat),
            0 <= count <= n,
            count <= limit,
            running == sum(lens.take(count as int)),
            forall|j: int| 0 <= j < count ==> j < limit && #[trigger] sum(lens.take(j)) < target,
        decreases n - count,
    {
        proof {
            lemma_sum_take_next(lens, count as int);
            lemma_sum_prefix_le(lens, count as int + 1);
            assert(lens[count as int] == crate::message::message_len(messages@[count as int]@));
        }
        let m = get_message_len(&messages[count]);
        running = running + m;
        count = count + 1;
    }
    count
}

} // verus!
