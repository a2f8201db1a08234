use vstd::prelude::*;
use vstd::arithmetic::div_mod::{
    lemma_fundamental_div_mod, lemma_fundamental_div_mod_converse, lemma_mod_multiples_vanish,
};

verus! {

/// Accepted pointer samples asked for per second of sampling budget.
pub const TICKS_PER_SECOND: u32 = 200;

/// Pause after an accepted sample, in milliseconds.
pub const SAMPLE_PAUSE_MS: u64 = 5;

/// Pause after a repeated sample, in milliseconds.
pub const DUPLICATE_PAUSE_MS: u64 = 10;

/// The pointer source could not report a position.
#[derive(Clone, Copy, Debug, PartialEq, Eq, Structural)]
pub enum MotionError {
    SourceUnavailable,
}

/// How long the sampling loop waits before the next reading.
#[derive(Clone, Copy, Debug, PartialEq, Eq, Structural)]
pub enum Pause {
    /// The reading was new and was folded into the buffer.
    AfterSample,
    /// The reading repeated the previous one and was discarded.
    AfterDuplicate,
}

impl Pause {
    /// The length of the pause in milliseconds.
    pub fn millis(&self) -> (r: u64)
        ensures
            r == (match *self {
                Pause::AfterSample => SAMPLE_PAUSE_MS,
                Pause::AfterDuplicate => DUPLICATE_PAUSE_MS,
            }),
    {
        match self {
            Pause::AfterSample => SAMPLE_PAUSE_MS,
            Pause::AfterDuplicate => DUPLICATE_PAUSE_MS,
        }
    }
}

/// The byte that the pointer position `(x, y)` contributes: `(x + y) mod 256`.
pub open spec fn signal_spec(x: i32, y: i32) -> u8 {
    ((x as int + y as int) % 256) as u8
}

/// `b + s` with unsigned 8-bit wraparound.
pub open spec fn mix_spec(b: u8, s: u8) -> u8 {
    ((b as int + s as int) % 256) as u8
}

/// How many of the first `k` accepted samples land on index `j` when they
/// are dealt round-robin over `width` indices.
pub open spec fn contributions(k: nat, width: nat, j: nat) -> nat
    decreases k,
{
    if k == 0 {
        0
    } else {
        contributions((k - 1) as nat, width, j) + if ((k - 1) as nat) % width == j {
            1nat
        } else {
            0nat
        }
    }
}

/// What a motion mixer holds.
pub struct MixerView {
    /// Accepted samples to collect in all.
    pub target: nat,
    /// Number of buffer positions the samples rotate over.
    pub width: nat,
    /// The position the next accepted sample is added to.
    pub index: nat,
    /// Accepted samples so far.
    pub accepted: nat,
    /// The last accepted position; none before the first.
    pub last: Option<(i32, i32)>,
    /// How many accepted samples each position has received.
    pub hits: Seq<nat>,
}

impl MixerView {
    pub open spec fn wf(&self) -> bool {
        &&& self.width >= 1
        &&& self.accepted <= self.target
        &&& self.index == self.accepted % self.width
        &&& self.hits.len() == self.width
        &&& forall|j: int|
            0 <= j < self.width ==> #[trigger] self.hits[j] == contributions(
                self.accepted,
                self.width,
                j as nat,
            )
    }

    pub open spec fn is_done(&self) -> bool {
        self.accepted >= self.target
    }

    /// The mixer after accepting the position `(x, y)`.
    pub open spec fn after_sample(self, x: i32, y: i32) -> MixerView {
        MixerView {
            index: (self.index + 1) % self.width,
            accepted: self.accepted + 1,
            last: Some((x, y)),
            hits: self.hits.update(self.index as int, self.hits[self.index as int] + 1),
            ..self
        }
    }

    /// Whether `(x, y)` repeats the last accepted position.
    pub open spec fn is_duplicate(&self, x: i32, y: i32) -> bool {
        self.last == Some((x, y))
    }
}

/// A mixer that has accepted nothing yet.
pub open spec fn fresh_mixer(target: nat, width: nat) -> MixerView {
    MixerView {
        target,
        width,
        index: 0,
        accepted: 0,
        last: None,
        hits: Seq::new(width, |j: int| 0nat),
    }
}

/// The buffer after folding the position `(x, y)` in at the mixer's index.
pub open spec fn mixed_buffer(buffer: Seq<u8>, m: MixerView, x: i32, y: i32) -> Seq<u8> {
    buffer.update(m.index as int, mix_spec(buffer[m.index as int], signal_spec(x, y)))
}

/// Folds pointer positions into a byte buffer, round-robin over its positions.
pub struct MotionMixer {
    target: u32,
    width: usize,
    index: usize,
    accepted: u32,
    last: Option<(i32, i32)>,
    hits: Ghost<Seq<nat>>,
}

impl View for MotionMixer {
    type V = MixerView;

    closed spec fn view(&self) -> MixerView {
        MixerView {
            target: self.target as nat,
            width: self.width as nat,
            index: self.index as nat,
            accepted: self.accepted as nat,
            last: self.last,
            hits: self.hits@,
        }
    }
}

/// `(x + y) mod 256`, computed without overflow.
fn signal(x: i32, y: i32) -> (r: u8)
    ensures
        r == signal_spec(x, y),
{
    let sum: i64 = x as i64 + y as i64 + 0x2_0000_0000;
    proof {
        lemma_mod_multiples_vanish(0x2000000, x as int + y as int, 256);
        assert(0x2_0000_0000int == 256 * 0x2000000);
    }
    (sum % 256) as u8
}

impl MotionMixer {
    /// A mixer that will collect `seconds * TICKS_PER_SECOND` samples over
    /// `width` buffer positions.
    pub fn new(seconds: u8, width: usize) -> (r: MotionMixer)
        requires
            width >= 1,
        ensures
            r@.wf(),
            r@ == fresh_mixer(seconds as nat * TICKS_PER_SECOND as nat, width as nat),
    {
        let r = MotionMixer {
            target: seconds as u32 * TICKS_PER_SECOND,
            width,
            index: 0,
            accepted: 0,
            last: None,
            hits: Ghost(Seq::new(width as nat, |j: int| 0nat)),
        };
        assert(r@.hits =~= Seq::new(width as nat, |j: int| 0nat));
        r
    }

    /// True once every sample asked for has been accepted.
    pub fn is_done(&self) -> (r: bool)
        ensures
            r == self@.is_done(),
    {
        self.accepted >= self.target
    }

    /// Folds one pointer reading into `buffer`. A position equal to the last
    /// accepted one is discarded and changes nothing; a new one is added, with
    /// wraparound, to the byte at the current index, and the index advances.
    /// Returns whether the reading was accepted.
    pub fn feed(&mut self, buffer: &mut Vec<u8>, x: i32, y: i32) -> (accepted: bool)
        requires
            old(self)@.wf(),
            !old(self)@.is_done(),
            old(buffer)@.len() == old(self)@.width,
        ensures
            final(self)@.wf(),
            accepted == !old(self)@.is_duplicate(x, y),
            !accepted ==> final(self)@ == old(self)@ && final(buffer)@ == old(buffer)@,
            accepted ==> final(self)@ == old(self)@.after_sample(x, y) && final(buffer)@
                == mixed_buffer(old(buffer)@, old(self)@, x, y),
    {
        if let Some((lx, ly)) = self.last {
            if lx == x && ly == y {
                return false;
            }
        }
        let ghost before = self@;
        let s = signal(x, y);
        let old_byte = buffer[self.index];
        buffer.set(self.index, old_byte.wrapping_add(s));
        self.last = Some((x, y));
        self.hits = Ghost(self.hits@.update(self.index as int, self.hits@[self.index as int] + 1));
        self.index = if self.index + 1 == self.width {
            0
        } else {
            self.index + 1
        };
        self.accepted = self.accepted + 1;
        proof {
            lemma_next_index(before.accepted, before.width);
            assert forall|j: int| 0 <= j < self@.width implies #[trigger] self@.hits[j]
                == contributions(self@.accepted, self@.width, j as nat) by {
                assert(contributions(self@.accepted, self@.width, j as nat) == contributions(
                    before.accepted,
                    before.width,
                    j as nat,
                ) + if before.accepted % before.width == j as nat {
                    1nat
                } else {
                    0nat
                });
            }
        }
        proof {
            let i = before.index as int;
            let w = before.width as int;
            if i + 1 == w {
                lemma_fundamental_div_mod_converse(i + 1, w, 1, 0);
            } else {
                lemma_fundamental_div_mod_converse(i + 1, w, 0, i + 1);
            }
            assert(self@.hits =~= before.after_sample(x, y).hits);
        }
        assert(self@ == before.after_sample(x, y));
        true
    }

    /// Folds the outcome of one pointer reading into `buffer`: a reading that
    /// failed ends the mixing with an error and changes nothing.
    pub fn feed_reading(&mut self, buffer: &mut Vec<u8>, reading: Option<(i32, i32)>) -> (r:
        Result<Pause, MotionError>)
        requires
            old(self)@.wf(),
            !old(self)@.is_done(),
            old(buffer)@.len() == old(self)@.width,
        ensures
            final(self)@.wf(),
            reading is None ==> r == Err::<Pause, MotionError>(MotionError::SourceUnavailable)
                && final(self)@ == old(self)@ && final(buffer)@ == old(buffer)@,
            reading is Some ==> ({
                let (x, y) = reading->0;
                if old(self)@.is_duplicate(x, y) {
                    &&& r == Ok::<Pause, MotionError>(Pause::AfterDuplicate)
                    &&& final(self)@ == old(self)@
                    &&& final(buffer)@ == old(buffer)@
                } else {
                    &&& r == Ok::<Pause, MotionError>(Pause::AfterSample)
                    &&& final(self)@ == old(self)@.after_sample(x, y)
                    &&& final(buffer)@ == mixed_buffer(old(buffer)@, old(self)@, x, y)
                }
            }),
    {
        match reading {
            None => Err(MotionError::SourceUnavailable),
            Some((x, y)) => {
                if self.feed(buffer, x, y) {
                    Ok(Pause::AfterSample)
                } else {
                    Ok(Pause::AfterDuplicate)
                }
            },
        }
    }
}

/// The index after `k` accepted samples moves on by one, wrapping at `width`.
proof fn lemma_next_index(k: nat, width: nat)
    requires
        width >= 1,
    ensures
        (k + 1) % width == if k % width + 1 == width {
            0
        } else {
            k % width + 1
        },
{
    let q = (k as int) / (width as int);
    let r = (k as int) % (width as int);
    lemma_fundamental_div_mod(k as int, width as int);
    if r + 1 == width {
        assert(k + 1 == (q + 1) * width + 0) by (nonlinear_arith)
            requires
                k == width * q + r,
                r + 1 == width,
        ;
        lemma_fundamental_div_mod_converse(k + 1int, width as int, q + 1, 0);
    } else {
        assert(k + 1 == q * width + (r + 1)) by (nonlinear_arith)
            requires
                k == width * q + r,
        ;
        lemma_fundamental_div_mod_converse(k + 1int, width as int, q, r + 1);
    }
}

/// Dealing `k` samples round-robin over `width` positions gives position `j`
/// exactly `k / width` samples, plus one when `j` is below `k mod width`.
pub proof fn lemma_contributions_exact(k: nat, width: nat, j: nat)
    requires
        width >= 1,
        j < width,
    ensures
        contributions(k, width, j) == k / width + if j < k % width {
            1nat
        } else {
            0nat
        },
    decreases k,
{
    if k == 0 {
        lemma_fundamental_div_mod_converse(0, width as int, 0, 0);
    } else {
        let p = (k - 1) as nat;
        lemma_contributions_exact(p, width, j);
        lemma_next_index(p, width);
        let q = (p as int) / (width as int);
        let r = (p as int) % (width as int);
        lemma_fundamental_div_mod(p as int, width as int);
        if r + 1 == width {
            assert(k == (q + 1) * width + 0) by (nonlinear_arith)
                requires
                    p == width * q + r,
                    r + 1 == width,
                    k == p + 1,
            ;
            lemma_fundamental_div_mod_converse(k as int, width as int, q + 1, 0);
        } else {
            assert(k == q * width + (r + 1)) by (nonlinear_arith)
                requires
                    p == width * q + r,
                    k == p + 1,
            ;
            lemma_fundamental_div_mod_converse(k as int, width as int, q, r + 1);
        }
    }
}

/// Feeding the same position twice in a row: the second reading is a
/// duplicate, which `MotionMixer::feed` discards without touching the buffer,
/// the index or the count.
pub proof fn lemma_repeat_is_duplicate(m: MixerView, x: i32, y: i32)
    requires
        m.wf(),
        !m.is_duplicate(x, y),
    ensures
        m.after_sample(x, y).is_duplicate(x, y),
        m.after_sample(x, y).index == (m.index + 1) % m.width,
        m.after_sample(x, y).accepted == m.accepted + 1,
{
}

/// Before any sample has been accepted there is nothing to repeat: the first
/// reading, whatever its position, is accepted.
pub proof fn lemma_first_reading_accepted(target: nat, width: nat, x: i32, y: i32)
    ensures
        !fresh_mixer(target, width).is_duplicate(x, y),
{
}

/// Round-robin completeness: in a well-formed mixer that has accepted `k`
/// samples over `R` positions, every position has received `floor(k / R)`
/// or `ceil(k / R)` of them; none is skipped and none is weighted more.
pub proof fn lemma_round_robin_complete(m: MixerView)
    requires
        m.wf(),
    ensures
        forall|j: int|
            0 <= j < m.width ==> #[trigger] m.hits[j] == m.accepted / m.width || m.hits[j]
                == m.accepted / m.width + 1,
        m.accepted % m.width == 0 ==> forall|j: int|
            0 <= j < m.width ==> #[trigger] m.hits[j] == m.accepted / m.width,
{
    assert forall|j: int| 0 <= j < m.width implies #[trigger] m.hits[j] == m.accepted / m.width
        || m.hits[j] == m.accepted / m.width + 1 by {
        lemma_contributions_exact(m.accepted, m.width, j as nat);
    }
    assert forall|j: int| m.accepted % m.width == 0 && 0 <= j < m.width implies #[trigger] m.hits[j]
        == m.accepted / m.width by {
        lemma_contributions_exact(m.accepted, m.width, j as nat);
    }
}

} // verus!
