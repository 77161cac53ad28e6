//! Fingerprints of images, made with the hasher of `rustc_hash`.
use std::hash::Hasher;
use vstd::prelude::*;
use rustc_hash::FxHasher;
use crate::image::Image;
use crate::pixel::{Luma, Rgba};

verus! {

/// `rustc_hash::FxHasher`, a hasher that is fed numbers.
#[verifier::external_type_specification]
#[verifier::external_body]
pub struct ExFxHasher(rustc_hash::FxHasher);

/// The state of a hasher, which is also what `Hasher::finish` returns.
pub uninterp spec fn fx_state(hasher: FxHasher) -> u64;

/// The step of the hasher in a word of 64 bits: the state is turned left by five bits, the word
/// is laid over it, and the product with a constant is cut to the word's width.
pub open spec fn fx_step_64(state: u64, word: u64) -> u64 {
    let mixed = ((state << 5) | (state >> 59)) ^ word;
    ((mixed * 0x517cc1b727220a95) % 0x1_0000_0000_0000_0000) as u64
}

/// The same step in a word of 32 bits.
pub open spec fn fx_step_32(state: u32, word: u32) -> u32 {
    let mixed = ((state << 5) | (state >> 27)) ^ word;
    ((mixed * 0x9e3779b9) % 0x1_0000_0000) as u32
}

/// The state after a number is fed to a hasher. The hasher works in words of the width of a
/// pointer, so narrow ones take a number in two steps, the lower half first.
pub open spec fn fx_fed(pointer_bits: u32, state: u64, number: u64) -> u64 {
    if pointer_bits == 64 {
        fx_step_64(state, number)
    } else {
        fx_step_32(fx_step_32(state as u32, number as u32), (number >> 32) as u32) as u64
    }
}

/// The state after several numbers are fed to a hasher, in order.
pub open spec fn fx_fed_all(pointer_bits: u32, state: u64, numbers: Seq<u64>) -> u64
    decreases numbers.len(),
{
    if numbers.len() == 0 {
        state
    } else {
        fx_fed(
            pointer_bits,
            fx_fed_all(pointer_bits, state, numbers.drop_last()),
            numbers.last(),
        )
    }
}

/// What a fresh hasher makes of several numbers.
pub open spec fn fx_digest(pointer_bits: u32, numbers: Seq<u64>) -> u64 {
    fx_fed_all(pointer_bits, 0, numbers)
}

/// Feeding two runs of numbers one after the other is feeding them as one run.
proof fn lemma_fed_in_two_runs(pointer_bits: u32, state: u64, first: Seq<u64>, second: Seq<u64>)
    ensures
        fx_fed_all(pointer_bits, fx_fed_all(pointer_bits, state, first), second) == fx_fed_all(
            pointer_bits,
            state,
            first + second,
        ),
    decreases second.len(),
{
    if second.len() == 0 {
        assert(first + second =~= first);
    } else {
        assert((first + second).drop_last() =~= first + second.drop_last());
        lemma_fed_in_two_runs(pointer_bits, state, first, second.drop_last());
    }
}

/// Feeding a run of one number is feeding the number.
proof fn lemma_fed_alone(pointer_bits: u32, state: u64, number: u64)
    ensures
        fx_fed_all(pointer_bits, state, seq![number]) == fx_fed(pointer_bits, state, number),
{
    assert(seq![number].drop_last() =~= Seq::<u64>::empty());
    assert(fx_fed_all(pointer_bits, state, seq![number].drop_last()) == state);
}

/// Calls `FxHasher::default`: the state is zero.
#[verifier::external_body]
fn fresh_hasher() -> (hasher: FxHasher)
    ensures
        fx_state(hasher) == 0,
{
    FxHasher::default()
}

/// Calls `Hasher::write_u64` on an `FxHasher`, which makes one step with the number on a machine
/// with pointers of 64 bits, and on one with pointers of 32 bits a step with each half.
#[verifier::external_body]
fn feed(hasher: &mut FxHasher, number: u64)
    ensures
        fx_state(*final(hasher)) == fx_fed(usize::BITS, fx_state(*old(hasher)), number),
{
    hasher.write_u64(number)
}

/// Calls `Hasher::finish` on an `FxHasher`, which returns the state.
#[verifier::external_body]
fn digest(hasher: &FxHasher) -> (digest: u64)
    ensures
        digest == fx_state(*hasher),
{
    hasher.finish()
}

/// Something that can be fed to a hasher.
pub trait Fingerprint {
    /// The numbers that stand for this value.
    spec fn words(&self) -> Seq<u64>;

    /// Feeds these numbers to a hasher, in order.
    fn feed_to(&self, hasher: &mut FxHasher)
        ensures
            fx_state(*final(hasher)) == fx_fed_all(
                usize::BITS,
                fx_state(*old(hasher)),
                self.words(),
            ),
    ;
}

impl Fingerprint for u8 {
    open spec fn words(&self) -> Seq<u64> {
        seq![*self as u64]
    }

    fn feed_to(&self, hasher: &mut FxHasher) {
        proof {
            lemma_fed_alone(usize::BITS, fx_state(*hasher), *self as u64);
        }
        feed(hasher, *self as u64);
    }
}

impl Fingerprint for u32 {
    open spec fn words(&self) -> Seq<u64> {
        seq![*self as u64]
    }

    fn feed_to(&self, hasher: &mut FxHasher) {
        proof {
            lemma_fed_alone(usize::BITS, fx_state(*hasher), *self as u64);
        }
        feed(hasher, *self as u64);
    }
}

impl<C: Fingerprint> Fingerprint for Rgba<C> {
    open spec fn words(&self) -> Seq<u64> {
        self.red.words() + self.green.words() + self.blue.words() + self.alpha.words()
    }

    fn feed_to(&self, hasher: &mut FxHasher) {
        proof {
            let start = fx_state(*hasher);
            let two = self.red.words() + self.green.words();
            lemma_fed_in_two_runs(usize::BITS, start, self.red.words(), self.green.words());
            lemma_fed_in_two_runs(usize::BITS, start, two, self.blue.words());
            lemma_fed_in_two_runs(
                usize::BITS,
                start,
                two + self.blue.words(),
                self.alpha.words(),
            );
        }
        self.red.feed_to(hasher);
        self.green.feed_to(hasher);
        self.blue.feed_to(hasher);
        self.alpha.feed_to(hasher);
    }
}

impl<C: Fingerprint> Fingerprint for Luma<C> {
    open spec fn words(&self) -> Seq<u64> {
        self.l.words()
    }

    fn feed_to(&self, hasher: &mut FxHasher) {
        self.l.feed_to(hasher);
    }
}

/// The numbers that stand for a row of pixels.
pub open spec fn pixel_words<P: Fingerprint>(pixels: Seq<P>) -> Seq<u64>
    decreases pixels.len(),
{
    if pixels.len() == 0 {
        Seq::empty()
    } else {
        pixel_words(pixels.drop_last()) + pixels.last().words()
    }
}

impl<P: Fingerprint> Fingerprint for Image<P> {
    open spec fn words(&self) -> Seq<u64> {
        seq![self.width as u64, self.height as u64] + pixel_words(self.data@)
    }

    fn feed_to(&self, hasher: &mut FxHasher) {
        let ghost start = fx_state(*hasher);
        let ghost size = seq![self.width as u64, self.height as u64];
        proof {
            let width = seq![self.width as u64];
            let height = seq![self.height as u64];
            lemma_fed_alone(usize::BITS, start, self.width as u64);
            lemma_fed_alone(
                usize::BITS,
                fx_fed_all(usize::BITS, start, width),
                self.height as u64,
            );
            lemma_fed_in_two_runs(usize::BITS, start, width, height);
            assert(width + height =~= size);
            assert(self.data@.take(0) =~= Seq::<P>::empty());
            assert(size + pixel_words(self.data@.take(0)) =~= size);
        }
        feed(hasher, self.width as u64);
        feed(hasher, self.height as u64);
        let mut i: usize = 0;
        while i < self.data.len()
            invariant
                i <= self.data.len(),
                fx_state(*hasher) == fx_fed_all(
                    usize::BITS,
                    start,
                    size + pixel_words(self.data@.take(i as int)),
                ),
            decreases self.data.len() - i,
        {
            proof {
                let fed = size + pixel_words(self.data@.take(i as int));
                let next = self.data@.take(i + 1);
                lemma_fed_in_two_runs(usize::BITS, start, fed, self.data@[i as int].words());
                assert(next.drop_last() =~= self.data@.take(i as int));
                assert(fed + self.data@[i as int].words() =~= size + pixel_words(next));
            }
            self.data[i].feed_to(hasher);
            i = i + 1;
        }
        assert(self.data@.take(i as int) =~= self.data@);
    }
}

/// The fingerprint of a value.
pub fn fingerprint<T: Fingerprint>(value: &T) -> (digest: u64)
    ensures
        digest == fx_digest(usize::BITS, value.words()),
{
    let mut hasher = fresh_hasher();
    value.feed_to(&mut hasher);
    self::digest(&hasher)
}

/// Rows of pixels of which each stands for `count` numbers are as many as their numbers are, and are
/// the same where these are.
proof fn lemma_pixel_words<P: Fingerprint>(a: Seq<P>, b: Seq<P>, count: nat)
    requires
        count > 0,
        forall|p: P| (#[trigger] p.words()).len() == count,
        forall|p: P, q: P| #[trigger] p.words() == #[trigger] q.words() ==> p == q,
        pixel_words(a) == pixel_words(b),
    ensures
        a == b,
    decreases a.len(),
{
    lemma_pixel_words_len(a, count);
    lemma_pixel_words_len(b, count);
    assert(a.len() == b.len()) by (nonlinear_arith)
        requires
            a.len() * count == b.len() * count,
            count > 0,
    ;
    if a.len() > 0 {
        let n = pixel_words(a.drop_last()).len();
        lemma_pixel_words_len(a.drop_last(), count);
        lemma_pixel_words_len(b.drop_last(), count);
        let all = pixel_words(a);
        assert(all.subrange(0, n as int) =~= pixel_words(a.drop_last()));
        assert(all.subrange(0, n as int) =~= pixel_words(b.drop_last()));
        assert(all.subrange(n as int, all.len() as int) =~= a.last().words());
        assert(all.subrange(n as int, all.len() as int) =~= b.last().words());
        lemma_pixel_words(a.drop_last(), b.drop_last(), count);
        assert(a =~= a.drop_last().push(a.last()));
        assert(b =~= b.drop_last().push(b.last()));
    } else {
        assert(a =~= b);
    }
}

/// A row of pixels stands for as many numbers as its pixels together.
proof fn lemma_pixel_words_len<P: Fingerprint>(pixels: Seq<P>, count: nat)
    requires
        forall|p: P| (#[trigger] p.words()).len() == count,
    ensures
        pixel_words(pixels).len() == pixels.len() * count,
    decreases pixels.len(),
{
    if pixels.len() > 0 {
        lemma_pixel_words_len(pixels.drop_last(), count);
        assert((pixels.len() - 1) * count + count == pixels.len() * count) by (nonlinear_arith);
    }
}

/// The numbers that are fed to the hasher tell images apart: those of two images are the same only
/// if the images have the same size and the same pixels. Each pixel must stand for equally many
/// numbers, and no two for the same.
pub proof fn numbers_tell_images_apart<P: Fingerprint>(a: &Image<P>, b: &Image<P>, count: nat)
    requires
        count > 0,
        forall|p: P| (#[trigger] p.words()).len() == count,
        forall|p: P, q: P| #[trigger] p.words() == #[trigger] q.words() ==> p == q,
    ensures
        a.words() == b.words() <==> a.same_as(b),
{
    if a.words() == b.words() {
        let all = a.words();
        assert(a.width as u64 == all[0] && b.width as u64 == all[0]);
        assert(a.height as u64 == all[1] && b.height as u64 == all[1]);
        assert(all.subrange(2, all.len() as int) =~= pixel_words(a.data@));
        assert(all.subrange(2, all.len() as int) =~= pixel_words(b.data@));
        lemma_pixel_words(a.data@, b.data@, count);
    }
}

} // verus!
