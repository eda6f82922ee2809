//! Random choice of two lines that may be exchanged, and shuffling of a grid
//! by such exchanges.
use vstd::prelude::*;
use crate::grid::{apply_exchanges, is_solution, SudokuMap};
use crate::laws::lemma_exchanges_keep_solution;
use crate::line::{band, MapLine};

verus! {

/// Rounds of drawing two positions before a distinct pair is taken directly.
pub const MAX_DRAWS: usize = 32;

/// Relies on rand::random::<bool>: a boolean from the thread-local generator.
#[verifier::external_body]
fn random_bool() -> (r: bool) {
    rand::random::<bool>()
}

/// Relies on rand::Rng::gen_range on rand::thread_rng: a value in `0..bound`
/// (it panics on an empty range).
#[verifier::external_body]
fn random_below(bound: usize) -> (r: usize)
    requires
        bound > 0,
    ensures
        r < bound,
{
    rand::Rng::gen_range(&mut rand::thread_rng(), 0..bound)
}

/// Two distinct lines of one kind in one band, chosen at random: the kind and
/// the band first, then two positions in the band, drawn again together while
/// they coincide.
pub fn mk_two_lines() -> (r: (MapLine, MapLine))
    ensures
        r.0.exchangeable(r.1),
        r.0.line_index() != r.1.line_index(),
{
    let line_type = random_bool();
    let group_order = random_below(3);
    let mut order_in_group_1: usize = 0;
    let mut order_in_group_2: usize = 0;
    let mut draws: usize = 0;
    while order_in_group_1 == order_in_group_2 && draws < MAX_DRAWS
        invariant
            order_in_group_1 < 3,
            order_in_group_2 < 3,
            draws <= MAX_DRAWS,
        decreases MAX_DRAWS - draws,
    {
        order_in_group_1 = random_below(3);
        order_in_group_2 = random_below(3);
        draws = draws + 1;
    }
    if order_in_group_1 == order_in_group_2 {
        // Every round coincided: the second position is drawn among the two
        // others, which keeps each ordered pair equally likely.
        order_in_group_2 = (order_in_group_1 + 1 + random_below(2)) % 3;
    }
    let result_1 = MapLine::new_in_group(group_order, order_in_group_1, line_type);
    let result_2 = MapLine::new_in_group(group_order, order_in_group_2, line_type);
    (result_1, result_2)
}

impl SudokuMap {
    /// Makes `times` exchanges of random line pairs: the grid ends as the old
    /// one after some `times` exchangeable pairs of distinct lines, exchanged in
    /// order.
    pub fn shuffle(&mut self, times: usize)
        requires
            old(self).wf(),
        ensures
            final(self).wf(),
            exists|pairs: Seq<(MapLine, MapLine)>|
                {
                    &&& pairs.len() == times
                    &&& forall|i: int| 0 <= i < times ==> (#[trigger] pairs[i]).0.exchangeable(pairs[i].1)
                    &&& forall|i: int|
                        0 <= i < times ==> (#[trigger] pairs[i]).0.line_index() != pairs[i].1.line_index()
                    &&& final(self)@ == apply_exchanges(old(self)@, pairs)
                },
            is_solution(old(self)@) ==> is_solution(final(self)@),
    {
        let ghost g0 = self@;
        let ghost mut pairs: Seq<(MapLine, MapLine)> = Seq::empty();
        for n in 0..times
            invariant
                self.wf(),
                pairs.len() == n,
                forall|i: int| 0 <= i < pairs.len() ==> (#[trigger] pairs[i]).0.exchangeable(pairs[i].1),
                forall|i: int|
                    0 <= i < pairs.len() ==> (#[trigger] pairs[i]).0.line_index() != pairs[i].1.line_index(),
                self@ == apply_exchanges(g0, pairs),
        {
            let two_lines = mk_two_lines();
            let _ = self.exchange_line(two_lines);
            proof {
                let next = pairs.push(two_lines);
                assert(next.drop_last() == pairs);
                pairs = next;
            }
        }
        proof {
            if is_solution(g0) {
                lemma_exchanges_keep_solution(g0, pairs);
            }
        }
    }
}

} // verus!
