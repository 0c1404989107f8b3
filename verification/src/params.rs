//! Parameter mapping and the control-side parameter object.
//!
//! Each of the five slots (threshold, ratio, attack, release, makeup) has an
//! affine, strictly increasing, exactly invertible mapping between a
//! normalized control value in [0, NORM_ONE] and its engineering-unit fixed
//! point value.  The parameter object keeps the last normalized value of
//! every slot and pushes each cooked change onto the update channel.

use vstd::prelude::*;
use vstd::arithmetic::div_mod::{
    lemma_div_is_ordered, lemma_div_pos_is_pos, lemma_div_by_multiple,
};
use vstd::arithmetic::mul::lemma_mul_is_commutative;
use crate::channel::{send_with_retry, SendStatus, SEND_RETRY_LIMIT};
use crate::units::{DB_BOUND, MAKEUP_MAX, MS_MAX, MS_MIN, NORM_ONE, RATIO_MAX, SCALE};

verus! {

/// A parameter change in engineering units, consumed exactly once by the
/// audio side.
#[derive(Clone, Copy, Debug, PartialEq, Eq, Structural)]
pub enum ParamType {
    Threshold(i64),
    Ratio(i64),
    Attack(i64),
    Release(i64),
    Makeup(i64),
}

/// The ranges the audio side accepts for each change; every cooked value of
/// a normalized input lies inside them.
pub open spec fn wf_change(c: ParamType) -> bool {
    match c {
        ParamType::Threshold(t) => -DB_BOUND <= t <= DB_BOUND,
        ParamType::Ratio(r) => SCALE <= r <= RATIO_MAX,
        ParamType::Attack(a) => MS_MIN <= a <= MS_MAX,
        ParamType::Release(r) => MS_MIN <= r <= MS_MAX,
        ParamType::Makeup(m) => 0 <= m <= MAKEUP_MAX,
    }
}

/// The event one control change produces: the slot's variant carrying the
/// cooked engineering value.
pub open spec fn change_spec(index: int, raw: int) -> ParamType {
    if index == 0 {
        ParamType::Threshold(cook_spec(0, raw) as i64)
    } else if index == 1 {
        ParamType::Ratio(cook_spec(1, raw) as i64)
    } else if index == 2 {
        ParamType::Attack(cook_spec(2, raw) as i64)
    } else if index == 3 {
        ParamType::Release(cook_spec(3, raw) as i64)
    } else {
        ParamType::Makeup(cook_spec(4, raw) as i64)
    }
}

/// Normalized-to-engineering mapping, one affine map per slot:
/// threshold [-96 dB, 12 dB], ratio [1, 10], attack and release
/// [0.1 ms, 1000.2 ms], makeup [0 dB, 40 dB].
pub open spec fn cook_spec(index: int, v: int) -> int {
    if index == 0 {
        -96 * SCALE + 1080 * v
    } else if index == 1 {
        SCALE + 90 * v
    } else if index == 2 || index == 3 {
        SCALE / 10 + 10001 * v
    } else if index == 4 {
        400 * v
    } else {
        0
    }
}

/// Engineering-to-normalized mapping, the exact inverse of `cook_spec` on
/// cooked values.
pub open spec fn uncook_spec(index: int, value: int) -> int {
    if index == 0 {
        (value + 96 * SCALE) / 1080
    } else if index == 1 {
        (value - SCALE) / 90
    } else if index == 2 || index == 3 {
        (value - SCALE / 10) / 10001
    } else if index == 4 {
        value / 400
    } else {
        0
    }
}

/// Cook is exactly inverted by uncook on every slot and every normalized
/// value: the round trip is the identity, not merely close.
pub proof fn lemma_uncook_cook(index: int, v: int)
    requires
        0 <= index < 5,
        0 <= v <= NORM_ONE,
    ensures
        uncook_spec(index, cook_spec(index, v)) == v,
{
    if index == 0 {
        lemma_div_by_multiple(v, 1080);
        lemma_mul_is_commutative(1080, v);
    } else if index == 1 {
        lemma_div_by_multiple(v, 90);
        lemma_mul_is_commutative(90, v);
    } else if index == 2 || index == 3 {
        lemma_div_by_multiple(v, 10001);
        lemma_mul_is_commutative(10001, v);
    } else {
        lemma_div_by_multiple(v, 400);
        lemma_mul_is_commutative(400, v);
    }
}

/// Cook is strictly increasing in the normalized value on every slot.
pub proof fn lemma_cook_strictly_increasing(index: int, v1: int, v2: int)
    requires
        0 <= index < 5,
        0 <= v1 < v2 <= NORM_ONE,
    ensures
        cook_spec(index, v1) < cook_spec(index, v2),
{
}

/// Every cooked value lies between the slot's endpoints, so every change a
/// producer cooks is acceptable to the audio side.
pub proof fn lemma_cook_range(index: int, v: int)
    requires
        0 <= index < 5,
        0 <= v <= NORM_ONE,
    ensures
        cook_spec(index, 0) <= cook_spec(index, v) <= cook_spec(index, NORM_ONE as int),
{
}

/// Dividing an affine offset back out stays inside the normalized range.
proof fn lemma_affine_uncook(value: int, off: int, k: int)
    requires
        1 <= k,
        off <= value <= off + k * NORM_ONE,
    ensures
        0 <= (value - off) / k <= NORM_ONE,
{
    lemma_div_pos_is_pos(value - off, k);
    lemma_div_is_ordered(value - off, k * NORM_ONE, k);
    lemma_div_by_multiple(NORM_ONE as int, k);
    lemma_mul_is_commutative(k, NORM_ONE as int);
}

/// The last normalized value of every slot, plus the sending end of the
/// update channel.
pub struct CompressorParameters {
    pub threshold: i64,
    pub ratio: i64,
    pub attack: i64,
    pub release: i64,
    pub makeup: i64,
    pub channel: crossbeam::channel::Sender<ParamType>,
}

impl CompressorParameters {
    /// The stored normalized value of a slot.
    pub open spec fn param_at(self, index: int) -> int {
        if index == 0 {
            self.threshold as int
        } else if index == 1 {
            self.ratio as int
        } else if index == 2 {
            self.attack as int
        } else if index == 3 {
            self.release as int
        } else {
            self.makeup as int
        }
    }

    /// Every stored value is a normalized value.
    pub open spec fn wf(self) -> bool {
        forall|i: int| 0 <= i < 5 ==> 0 <= #[trigger] self.param_at(i) <= NORM_ONE
    }

    /// Normalized-to-engineering mapping of one slot.
    pub fn cook(index: i32, value: i64) -> (r: i64)
        requires
            0 <= index < 5,
            0 <= value <= NORM_ONE,
        ensures
            r == cook_spec(index as int, value as int),
    {
        match index {
            0 => -96 * SCALE + 1080 * value,
            1 => SCALE + 90 * value,
            2 => SCALE / 10 + 10001 * value,
            3 => SCALE / 10 + 10001 * value,
            _ => 400 * value,
        }
    }

    /// Engineering-to-normalized mapping of one slot; exact inverse of
    /// `cook` on cooked values.
    pub fn uncook(index: i32, value: i64) -> (r: i64)
        requires
            0 <= index < 5,
            cook_spec(index as int, 0) <= value <= cook_spec(index as int, NORM_ONE as int),
        ensures
            r == uncook_spec(index as int, value as int),
            0 <= r <= NORM_ONE,
    {
        match index {
            0 => {
                proof {
                    lemma_affine_uncook(value as int, -96 * SCALE, 1080);
                }
                (value + 96 * SCALE) / 1080
            },
            1 => {
                proof {
                    lemma_affine_uncook(value as int, SCALE as int, 90);
                }
                (value - SCALE) / 90
            },
            2 => {
                proof {
                    lemma_affine_uncook(value as int, SCALE as int / 10, 10001);
                }
                (value - SCALE / 10) / 10001
            },
            3 => {
                proof {
                    lemma_affine_uncook(value as int, SCALE as int / 10, 10001);
                }
                (value - SCALE / 10) / 10001
            },
            _ => {
                proof {
                    lemma_affine_uncook(value as int, 0, 400);
                }
                value / 400
            },
        }
    }

    /// A parameter object over the sending end of an update channel, with
    /// every slot at the normalized image of the default configuration
    /// (threshold 0 dB, ratio 2, attack 25 ms, release 50 ms, makeup 0 dB).
    pub fn new(channel: crossbeam::channel::Sender<ParamType>) -> (r: Self)
        ensures
            r.threshold == uncook_spec(0, 0),
            r.ratio == uncook_spec(1, 2 * SCALE as int),
            r.attack == uncook_spec(2, 25 * SCALE as int),
            r.release == uncook_spec(3, 50 * SCALE as int),
            r.makeup == uncook_spec(4, 0),
            r.channel == channel,
            r.wf(),
    {
        Self {
            threshold: Self::uncook(0, 0),
            ratio: Self::uncook(1, 2 * SCALE),
            attack: Self::uncook(2, 25 * SCALE),
            release: Self::uncook(3, 50 * SCALE),
            makeup: Self::uncook(4, 0),
            channel,
        }
    }

    /// The last normalized value a control surface set for a slot.
    pub fn get_parameter(&self, index: i32) -> (r: i64)
        requires
            0 <= index < 5,
        ensures
            r == self.param_at(index as int),
    {
        match index {
            0 => self.threshold,
            1 => self.ratio,
            2 => self.attack,
            3 => self.release,
            _ => self.makeup,
        }
    }

    /// Build the update event for one slot from its normalized value: the
    /// slot's variant carrying the cooked engineering value, always inside
    /// the ranges the audio side accepts.
    pub fn make_change(index: i32, raw: i64) -> (c: ParamType)
        requires
            0 <= index < 5,
            0 <= raw <= NORM_ONE,
        ensures
            c == change_spec(index as int, raw as int),
            wf_change(c),
    {
        let cooked = Self::cook(index, raw);
        proof {
            lemma_cook_range(index as int, raw as int);
        }
        match index {
            0 => ParamType::Threshold(cooked),
            1 => ParamType::Ratio(cooked),
            2 => ParamType::Attack(cooked),
            3 => ParamType::Release(cooked),
            _ => ParamType::Makeup(cooked),
        }
    }

    /// Record a normalized value for one slot, then push `make_change`'s
    /// event — and nothing else — onto the update channel with a bounded
    /// spin: the store is current before the event can be seen, and a full
    /// or torn-down queue never blocks the caller but reports its outcome.
    pub fn set_parameter(&mut self, index: i32, raw: i64) -> (s: SendStatus)
        requires
            0 <= index < 5,
            0 <= raw <= NORM_ONE,
        ensures
            final(self).param_at(index as int) == raw,
            forall|j: int|
                0 <= j < 5 && j != index ==> #[trigger] final(self).param_at(j) == old(
                    self,
                ).param_at(j),
            final(self).channel == old(self).channel,
            old(self).wf() ==> final(self).wf(),
    {
        let change = Self::make_change(index, raw);
        match index {
            0 => {
                self.threshold = raw;
            },
            1 => {
                self.ratio = raw;
            },
            2 => {
                self.attack = raw;
            },
            3 => {
                self.release = raw;
            },
            _ => {
                self.makeup = raw;
            },
        }
        proof {
            if old(self).wf() {
                assert forall|j: int| 0 <= j < 5 implies 0 <= #[trigger] self.param_at(j)
                    <= NORM_ONE by {
                    if j != index {
                        assert(self.param_at(j) == old(self).param_at(j));
                    }
                }
            }
        }
        send_with_retry(&self.channel, change, SEND_RETRY_LIMIT)
    }
}

} // verus!
