//! The streams of the rain: how one is placed and how all of them fall.

use rand::rngs::StdRng;
use rand::Rng;
use vstd::prelude::*;

verus! {

/// `rand::rngs::StdRng`, the generator that streams are drawn from. Nothing
/// is known of its state.
#[verifier::external_type_specification]
#[verifier::external_body]
pub struct ExStdRng(StdRng);

/// One stream. `y` is the row of its head; `brightnes` holds the bits of a
/// 32-bit float, which this library only carries.
#[derive(Debug, Clone, Copy)]
pub struct Rain {
    pub x: u16,
    pub y: u16,
    pub length: u16,
    pub speed: u16,
    pub symbl_pos: u16,
    pub brightnes: Option<u32>,
}

impl Rain {
    /// The whole stream, its tail included, has left a screen of `height` rows.
    pub open spec fn gone(&self, height: u16) -> bool {
        self.y - self.length > height
    }

    /// The stream after one step: its head `speed` rows lower, at most on the last row that `u16` holds.
    pub open spec fn stepped(&self) -> Rain {
        Rain {
            y: if self.y + self.speed > u16::MAX {
                u16::MAX
            } else {
                (self.y + self.speed) as u16
            },
            ..*self
        }
    }
}

/// The streams after one step, from index `idx` on: a stream that has left
/// the screen gives its place to the last one, which is looked at next; any
/// other falls by its speed.
pub open spec fn updated(s: Seq<Rain>, idx: int, height: u16) -> Seq<Rain>
    decreases s.len() - idx,
{
    if idx < 0 || idx >= s.len() {
        s
    } else if s[idx].gone(height) {
        updated(s.update(idx, s.last()).drop_last(), idx, height)
    } else {
        updated(s.update(idx, s[idx].stepped()), idx + 1, height)
    }
}

/// `Rng::gen_range` of rand on the half-open range from `low` to `high`,
/// which must not be empty: some value of that range.
#[verifier::external_body]
fn gen_range(rng: &mut StdRng, low: u16, high: u16) -> (r: u16)
    requires
        low < high,
    ensures
        low <= r < high,
{
    rng.gen_range(low..high)
}

/// What the parts of a new stream are drawn from: its length from `len.0` up
/// to `len.1`, its speed from `speed.0` up to `speed.1`, and its first symbol
/// among `symbols` symbols.
#[derive(Debug, Clone, Copy)]
pub struct Bounds {
    pub len: (u16, u16),
    pub speed: (u16, u16),
    pub symbols: u16,
}

impl Bounds {
    /// There is a length, a speed and a symbol to draw.
    pub open spec fn valid(&self) -> bool {
        self.len.0 < self.len.1 && self.speed.0 < self.speed.1 && self.symbols > 0
    }

    /// Whether there is a length, a speed and a symbol to draw.
    pub fn is_valid(&self) -> (r: bool)
        ensures
            r == self.valid(),
    {
        self.len.0 < self.len.1 && self.speed.0 < self.speed.1 && self.symbols > 0
    }

    /// `r` is a stream within these bounds that has no brightness yet.
    pub open spec fn admits(&self, r: Rain) -> bool {
        &&& self.len.0 <= r.length < self.len.1
        &&& self.speed.0 <= r.speed < self.speed.1
        &&& r.symbl_pos < self.symbols
        &&& r.brightnes is None
    }
}

/// Adds a stream with its head at column `x` and row `y`. Its length, its
/// speed and its first symbol are drawn, in this order, within `bounds`.
pub fn add_rain(rains: &mut Vec<Rain>, rng: &mut StdRng, x: u16, y: u16, bounds: Bounds)
    requires
        bounds.valid(),
    ensures
        final(rains)@.len() == old(rains)@.len() + 1,
        final(rains)@.drop_last() == old(rains)@,
        final(rains)@.last().x == x,
        final(rains)@.last().y == y,
        bounds.admits(final(rains)@.last()),
{
    let length = gen_range(rng, bounds.len.0, bounds.len.1);
    let speed = gen_range(rng, bounds.speed.0, bounds.speed.1);
    let symbl_pos = gen_range(rng, 0, bounds.symbols);
    rains.push(Rain { x, y, speed, length, symbl_pos, brightnes: None });
    assert(rains@.drop_last() =~= old(rains)@);
}

/// Adds a stream with its head at a column and a row that are drawn, in this
/// order, on a screen of `width` columns and `height` rows.
pub fn add_rain_anywhere(
    rains: &mut Vec<Rain>,
    rng: &mut StdRng,
    width: u16,
    height: u16,
    bounds: Bounds,
)
    requires
        width > 0,
        height > 0,
        bounds.valid(),
    ensures
        final(rains)@.len() == old(rains)@.len() + 1,
        final(rains)@.drop_last() == old(rains)@,
        final(rains)@.last().x < width,
        final(rains)@.last().y < height,
        bounds.admits(final(rains)@.last()),
{
    let x = gen_range(rng, 0, width);
    let y = gen_range(rng, 0, height);
    add_rain(rains, rng, x, y, bounds);
}

/// Adds a stream with its head on the first row, at a column that is drawn
/// on a screen of `width` columns.
pub fn add_rain_on_top(rains: &mut Vec<Rain>, rng: &mut StdRng, width: u16, bounds: Bounds)
    requires
        width > 0,
        bounds.valid(),
    ensures
        final(rains)@.len() == old(rains)@.len() + 1,
        final(rains)@.drop_last() == old(rains)@,
        final(rains)@.last().x < width,
        final(rains)@.last().y == 0,
        bounds.admits(final(rains)@.last()),
{
    let x = gen_range(rng, 0, width);
    add_rain(rains, rng, x, 0, bounds);
}

/// Lets every stream fall one step, and removes those that have left a
/// screen of `height` rows.
pub fn update(rains: &mut Vec<Rain>, height: u16)
    ensures
        final(rains)@ == updated(old(rains)@, 0, height),
{
    let mut idx: usize = 0;
    while idx < rains.len()
        invariant
            updated(rains@, idx as int, height) == updated(old(rains)@, 0, height),
        decreases rains.len() - idx,
    {
        let head = rains[idx];
        if head.y >= head.length && head.y - head.length > height {
            let _ = rains.swap_remove(idx);
        } else {
            let y = if head.speed > u16::MAX - head.y {
                u16::MAX
            } else {
                head.y + head.speed
            };
            rains[idx] = Rain { y, ..head };
            idx = idx + 1;
        }
    }
}

/// `r` is a stream of `s`, at index `idx` or later, that has not left the
/// screen, after it fell.
pub open spec fn fell_from(r: Rain, s: Seq<Rain>, idx: int, height: u16) -> bool {
    exists|j: int| idx <= j < s.len() && !s[j].gone(height) && r == #[trigger] s[j].stepped()
}

/// `r` stands in `t` at index `idx` or later.
pub open spec fn stands_in(r: Rain, t: Seq<Rain>, idx: int) -> bool {
    exists|i: int| idx <= i < t.len() && r == #[trigger] t[i]
}

proof fn lemma_updated_from(s: Seq<Rain>, idx: int, height: u16)
    requires
        0 <= idx <= s.len(),
    ensures
        idx <= updated(s, idx, height).len() <= s.len(),
        forall|i: int| 0 <= i < idx ==> #[trigger] updated(s, idx, height)[i] == s[i],
        forall|i: int|
            idx <= i < updated(s, idx, height).len() ==> fell_from(
                #[trigger] updated(s, idx, height)[i],
                s,
                idx,
                height,
            ),
        forall|j: int|
            idx <= j < s.len() && !(#[trigger] s[j]).gone(height) ==> stands_in(
                s[j].stepped(),
                updated(s, idx, height),
                idx,
            ),
    decreases s.len() - idx,
{
    let t = updated(s, idx, height);
    if idx < s.len() {
        if s[idx].gone(height) {
            let s1 = s.update(idx, s.last()).drop_last();
            lemma_updated_from(s1, idx, height);
            assert forall|i: int| idx <= i < t.len() implies fell_from(
                #[trigger] t[i],
                s,
                idx,
                height,
            ) by {
                assert(fell_from(t[i], s1, idx, height));
                let j1 = choose|j: int|
                    idx <= j < s1.len() && !s1[j].gone(height) && t[i] == #[trigger] s1[j].stepped();
                let j = if j1 == idx {
                    s.len() - 1
                } else {
                    j1
                };
                assert(s[j] == s1[j1]);
                assert(!s[j].gone(height) && t[i] == s[j].stepped());
            }
            assert forall|j: int| idx <= j < s.len() && !(#[trigger] s[j]).gone(
                height,
            ) implies stands_in(s[j].stepped(), t, idx) by {
                let j1 = if j == s.len() - 1 {
                    idx
                } else {
                    j
                };
                assert(s1[j1] == s[j]);
                assert(stands_in(s1[j1].stepped(), t, idx));
            }
        } else {
            let s1 = s.update(idx, s[idx].stepped());
            lemma_updated_from(s1, idx + 1, height);
            assert(t[idx] == s1[idx]);
            assert forall|i: int| idx <= i < t.len() implies fell_from(
                #[trigger] t[i],
                s,
                idx,
                height,
            ) by {
                if i == idx {
                    assert(!s[idx].gone(height) && t[i] == s[idx].stepped());
                } else {
                    assert(fell_from(t[i], s1, idx + 1, height));
                    let j = choose|j: int|
                        idx + 1 <= j < s1.len() && !s1[j].gone(height) && t[i]
                            == #[trigger] s1[j].stepped();
                    assert(s[j] == s1[j]);
                    assert(!s[j].gone(height) && t[i] == s[j].stepped());
                }
            }
            assert forall|j: int| idx <= j < s.len() && !(#[trigger] s[j]).gone(
                height,
            ) implies stands_in(s[j].stepped(), t, idx) by {
                if j == idx {
                    assert(s[j].stepped() == t[idx]);
                } else {
                    assert(s1[j] == s[j]);
                    assert(stands_in(s1[j].stepped(), t, idx + 1));
                    let i = choose|i: int| idx + 1 <= i < t.len() && s1[j].stepped() == #[trigger] t[i];
                    assert(s[j].stepped() == t[i]);
                }
            }
        }
    }
}

/// After a step, every stream is one that had not left the screen, fallen by
/// its speed, and every stream that had not left the screen is still there,
/// fallen by its speed.
pub proof fn lemma_update_keeps_what_is_seen(s: Seq<Rain>, height: u16)
    ensures
        updated(s, 0, height).len() <= s.len(),
        forall|i: int|
            0 <= i < updated(s, 0, height).len() ==> fell_from(
                #[trigger] updated(s, 0, height)[i],
                s,
                0,
                height,
            ),
        forall|j: int|
            0 <= j < s.len() && !(#[trigger] s[j]).gone(height) ==> stands_in(
                s[j].stepped(),
                updated(s, 0, height),
                0,
            ),
{
    lemma_updated_from(s, 0, height);
}

} // verus!
