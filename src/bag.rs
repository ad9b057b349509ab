use vstd::prelude::*;

use crate::types::{all_types, TetrominoType};

verus! {

/// Number of identities in one bag.
pub const BAG_SIZE: usize = 7;

/// `s` with the entries at `i` and `j` exchanged.
pub open spec fn swapped<A>(s: Seq<A>, i: int, j: int) -> Seq<A> {
    s.update(i, s[j]).update(j, s[i])
}

/// `s` after the first `picks.len()` steps of a Fisher-Yates pass from the
/// back: step `k` exchanges position `s.len() - 1 - k` with position `picks[k]`.
pub open spec fn shuffled(s: Seq<TetrominoType>, picks: Seq<usize>) -> Seq<TetrominoType>
    decreases picks.len(),
{
    if picks.len() == 0 {
        s
    } else {
        let k = picks.len() - 1;
        swapped(shuffled(s, picks.drop_last()), s.len() - 1 - k, picks[k] as int)
    }
}

/// One choice per step of a pass over a bag: step `k` picks a position among
/// the first `BAG_SIZE - k`.
pub open spec fn picks_ok(picks: Seq<usize>) -> bool {
    &&& picks.len() == BAG_SIZE - 1
    &&& forall|k: int| 0 <= k < picks.len() ==> #[trigger] picks[k] < BAG_SIZE - k
}

/// Each of the seven identities exactly once.
pub open spec fn is_full_set(s: Seq<TetrominoType>) -> bool {
    &&& s.len() == BAG_SIZE
    &&& s.no_duplicates()
    &&& forall|t: TetrominoType| s.contains(t)
}

/// A bag's state: the current order of the seven identities, and how many of
/// them have been dealt.
pub open spec fn bag_ok(v: (Seq<TetrominoType>, nat)) -> bool {
    is_full_set(v.0) && v.1 <= BAG_SIZE
}

/// One draw from `pre` that deals `out` and leaves `post`: while the pass
/// lasts, the next identity of the order; once it is spent, the first of the
/// order that a Fisher-Yates pass over the spent one gave.
pub open spec fn draw_step(
    pre: (Seq<TetrominoType>, nat),
    post: (Seq<TetrominoType>, nat),
    out: TetrominoType,
) -> bool {
    if pre.1 < BAG_SIZE {
        &&& post.0 == pre.0
        &&& post.1 == pre.1 + 1
        &&& out == pre.0[pre.1 as int]
    } else {
        &&& is_full_set(post.0)
        &&& exists|picks: Seq<usize>| #[trigger] picks_ok(picks) && post.0 == shuffled(pre.0, picks)
        &&& post.1 == 1
        &&& out == post.0[0]
    }
}

/// Exchanging two entries keeps each identity exactly once.
pub proof fn lemma_swapped_full_set(s: Seq<TetrominoType>, i: int, j: int)
    requires
        is_full_set(s),
        0 <= i < s.len(),
        0 <= j < s.len(),
    ensures
        is_full_set(swapped(s, i, j)),
{
    let r = swapped(s, i, j);
    assert forall|a: int| 0 <= a < r.len() implies #[trigger] r[a] == s[if a == i {
        j
    } else if a == j {
        i
    } else {
        a
    }] by {}
    assert forall|a: int, b: int| 0 <= a < r.len() && 0 <= b < r.len() && a != b implies r[a] != r[b] by {
        assert(r[a] == s[if a == i { j } else if a == j { i } else { a }]);
        assert(r[b] == s[if b == i { j } else if b == j { i } else { b }]);
    }
    assert forall|t: TetrominoType| r.contains(t) by {
        assert(s.contains(t));
        let k = choose|k: int| 0 <= k < s.len() && s[k] == t;
        let m = if k == i { j } else if k == j { i } else { k };
        assert(r[m] == t);
    }
}

/// A pass of the shuffle keeps each identity exactly once.
pub proof fn lemma_shuffled_full_set(s: Seq<TetrominoType>, picks: Seq<usize>)
    requires
        is_full_set(s),
        picks.len() < BAG_SIZE,
        forall|k: int| 0 <= k < picks.len() ==> #[trigger] picks[k] < BAG_SIZE - k,
    ensures
        is_full_set(shuffled(s, picks)),
    decreases picks.len(),
{
    if picks.len() > 0 {
        let p = picks.drop_last();
        assert forall|k: int| 0 <= k < p.len() implies #[trigger] p[k] < BAG_SIZE - k by {
            assert(p[k] == picks[k]);
        }
        lemma_shuffled_full_set(s, p);
        let k = picks.len() - 1;
        lemma_swapped_full_set(shuffled(s, p), s.len() - 1 - k, picks[k] as int);
    }
}

/// Seven draws that start at the end of a pass (a fresh bag, or one that has
/// just dealt seven) deal each identity exactly once, in the bag's new order,
/// and end at the end of a pass again.
pub proof fn lemma_seven_draws(bags: Seq<(Seq<TetrominoType>, nat)>, outs: Seq<TetrominoType>)
    requires
        bags.len() == BAG_SIZE + 1,
        outs.len() == BAG_SIZE,
        bag_ok(bags[0]),
        bags[0].1 == 0 || bags[0].1 == BAG_SIZE,
        forall|k: int| 0 <= k < BAG_SIZE ==> draw_step(#[trigger] bags[k], bags[k + 1], outs[k]),
    ensures
        is_full_set(outs),
        outs == bags[7].0,
        bag_ok(bags[7]),
        bags[7].1 == BAG_SIZE,
{
    assert(draw_step(bags[0], bags[1], outs[0]));
    assert(draw_step(bags[1], bags[2], outs[1]));
    assert(draw_step(bags[2], bags[3], outs[2]));
    assert(draw_step(bags[3], bags[4], outs[3]));
    assert(draw_step(bags[4], bags[5], outs[4]));
    assert(draw_step(bags[5], bags[6], outs[5]));
    assert(draw_step(bags[6], bags[7], outs[6]));
    assert(outs =~= bags[7].0);
}

/// Fourteen draws from a fresh bag deal two passes, each of which holds every
/// identity exactly once.
pub proof fn lemma_fourteen_draws(bags: Seq<(Seq<TetrominoType>, nat)>, outs: Seq<TetrominoType>)
    requires
        bags.len() == 2 * BAG_SIZE + 1,
        outs.len() == 2 * BAG_SIZE,
        bag_ok(bags[0]),
        bags[0].1 == 0,
        forall|k: int| 0 <= k < 2 * BAG_SIZE ==> draw_step(#[trigger] bags[k], bags[k + 1], outs[k]),
    ensures
        is_full_set(outs.take(7)),
        is_full_set(outs.subrange(7, 14)),
{
    let b1 = bags.take(8);
    let o1 = outs.take(7);
    assert forall|k: int| 0 <= k < BAG_SIZE implies draw_step(#[trigger] b1[k], b1[k + 1], o1[k]) by {
        assert(draw_step(bags[k], bags[k + 1], outs[k]));
    }
    lemma_seven_draws(b1, o1);
    let b2 = bags.subrange(7, 15);
    let o2 = outs.subrange(7, 14);
    assert forall|k: int| 0 <= k < BAG_SIZE implies draw_step(#[trigger] b2[k], b2[k + 1], o2[k]) by {
        assert(draw_step(bags[k + 7], bags[k + 8], outs[k + 7]));
    }
    lemma_seven_draws(b2, o2);
}

/// Relies on macroquad::rand::gen_range (quad-rand's `RandomRange` for
/// `usize`): it scales a 32-bit random draw into `[low, high)` and truncates,
/// so from 0 up to a bound of at most 2^32 - 1 it returns a value below the bound.
#[verifier::external_body]
fn random_below(bound: usize) -> (r: usize)
    requires
        1 <= bound <= u32::MAX,
    ensures
        r < bound,
{
    macroquad::rand::gen_range(0, bound)
}

/// Deals the seven identities in shuffled passes: every seven draws from the
/// start hold each identity exactly once.
pub struct PieceBag {
    pieces: Vec<TetrominoType>,
    index: usize,
}

impl View for PieceBag {
    type V = (Seq<TetrominoType>, nat);

    closed spec fn view(&self) -> (Seq<TetrominoType>, nat) {
        (self.pieces@, self.index as nat)
    }
}

impl PieceBag {
    /// The order holds each identity once and the cursor is within it.
    pub open spec fn wf(&self) -> bool {
        bag_ok(self@)
    }

    /// A bag with a freshly shuffled order and nothing dealt yet.
    pub fn new() -> (r: PieceBag)
        ensures
            r.wf(),
            r@.1 == 0,
            exists|picks: Seq<usize>| #[trigger] picks_ok(picks) && r@.0 == shuffled(all_types(), picks),
    {
        let all = TetrominoType::all();
        let mut pieces: Vec<TetrominoType> = Vec::new();
        let mut i: usize = 0;
        while i < BAG_SIZE
            invariant
                all@ == all_types(),
                i <= BAG_SIZE,
                pieces@ == all@.take(i as int),
            decreases BAG_SIZE - i,
        {
            pieces.push(all[i]);
            i += 1;
            assert(pieces@ =~= all@.take(i as int));
        }
        assert(pieces@ =~= all_types());
        let mut bag = PieceBag { pieces, index: 0 };
        proof {
            let s = bag.pieces@;
            assert forall|t: TetrominoType| s.contains(t) by {
                match t {
                    TetrominoType::I => assert(s[0] == t),
                    TetrominoType::O => assert(s[1] == t),
                    TetrominoType::T => assert(s[2] == t),
                    TetrominoType::S => assert(s[3] == t),
                    TetrominoType::Z => assert(s[4] == t),
                    TetrominoType::J => assert(s[5] == t),
                    TetrominoType::L => assert(s[6] == t),
                }
            }
        }
        bag.shuffle();
        bag
    }

    /// Reorders the bag with fresh random choices and restarts the pass.
    fn shuffle(&mut self)
        requires
            old(self).wf(),
        ensures
            final(self).wf(),
            final(self)@.1 == 0,
            exists|picks: Seq<usize>| #[trigger] picks_ok(picks) && final(self)@.0 == shuffled(old(self)@.0, picks),
    {
        let mut picks: Vec<usize> = Vec::new();
        let mut k: usize = 0;
        while k < BAG_SIZE - 1
            invariant
                k <= BAG_SIZE - 1,
                picks@.len() == k,
                forall|m: int| 0 <= m < k ==> #[trigger] picks@[m] < BAG_SIZE - m,
            decreases BAG_SIZE - 1 - k,
        {
            let j = random_below(BAG_SIZE - k);
            picks.push(j);
            k += 1;
        }
        self.shuffle_with(&picks);
    }

    /// Reorders the bag by one Fisher-Yates pass from the back, taking the
    /// choice of each step from `picks`, and restarts the pass.
    pub fn shuffle_with(&mut self, picks: &Vec<usize>)
        requires
            old(self).wf(),
            picks_ok(picks@),
        ensures
            final(self)@.0 == shuffled(old(self)@.0, picks@),
            final(self)@.1 == 0,
            final(self).wf(),
    {
        let ghost s = self.pieces@;
        let mut k: usize = 0;
        while k < picks.len()
            invariant
                is_full_set(s),
                picks_ok(picks@),
                k <= picks.len(),
                self.pieces@ == shuffled(s, picks@.take(k as int)),
            decreases picks.len() - k,
        {
            let ghost p = picks@.take(k + 1);
            assert(p.drop_last() =~= picks@.take(k as int));
            let i = BAG_SIZE - 1 - k;
            let j = picks[k];
            proof {
                let q = picks@.take(k as int);
                assert forall|m: int| 0 <= m < q.len() implies #[trigger] q[m] < BAG_SIZE - m by {
                    assert(q[m] == picks@[m]);
                }
                lemma_shuffled_full_set(s, q);
            }
            let a = self.pieces[i];
            let b = self.pieces[j];
            self.pieces.set(i, b);
            self.pieces.set(j, a);
            k += 1;
        }
        assert(picks@.take(k as int) =~= picks@);
        self.index = 0;
        proof {
            lemma_shuffled_full_set(s, picks@);
        }
    }

    /// Deals the next identity, reshuffling first when the pass is spent.
    pub fn next_piece(&mut self) -> (r: TetrominoType)
        requires
            old(self).wf(),
        ensures
            draw_step(old(self)@, final(self)@, r),
            final(self).wf(),
    {
        if self.index >= self.pieces.len() {
            self.shuffle();
        }
        let piece = self.pieces[self.index];
        self.index += 1;
        piece
    }

    /// The identity the next draw deals, unless the pass is spent.
    pub fn peek_next(&self) -> (r: Option<TetrominoType>)
        requires
            self.wf(),
        ensures
            r == (if self@.1 < BAG_SIZE {
                Some(self@.0[self@.1 as int])
            } else {
                None
            }),
    {
        if self.index < self.pieces.len() {
            Some(self.pieces[self.index])
        } else {
            None
        }
    }
}


impl Default for PieceBag {
    fn default() -> (r: PieceBag)
        ensures
            r.wf(),
            r@.1 == 0,
            exists|picks: Seq<usize>| #[trigger] picks_ok(picks) && r@.0 == shuffled(all_types(), picks),
    {
        PieceBag::new()
    }
}

} // verus!
