//! The signal model: channel masks, signal specifications, and the signal
//! reader/writer capability contracts.
//!
//! A signal is a logical sequence of typed samples with a fixed
//! specification. Readers deliver the samples of [`SignalReader::remaining`]
//! in order; writers accumulate samples into [`SignalWriter::written`]. Both
//! carry a finite allowance of transient failures
//! ([`SignalReader::read_retries`] / [`SignalWriter::write_retries`]): every
//! `Interrupted` or `NotReady` outcome spends one, which is what lets the
//! retry loops of this crate be proved terminating.

use vstd::prelude::*;
use crate::error::PhonicError;
use crate::sample::Sample;
use crate::util::vec_range;
use crate::util::vec_copy_in;

verus! {

/// Mask bit for the front left speaker; the other channel constants follow
/// the same single-bit pattern.
pub const FRONT_LEFT: u32 = 0x1;

pub const FRONT_RIGHT: u32 = 0x2;

pub const FRONT_CENTRE: u32 = 0x4;

pub const LFE1: u32 = 0x8;

pub const REAR_LEFT: u32 = 0x10;

pub const REAR_RIGHT: u32 = 0x20;

pub const FRONT_LEFT_CENTRE: u32 = 0x40;

pub const FRONT_RIGHT_CENTRE: u32 = 0x80;

pub const REAR_CENTRE: u32 = 0x100;

pub const SIDE_LEFT: u32 = 0x200;

pub const SIDE_RIGHT: u32 = 0x400;

pub const TOP_CENTRE: u32 = 0x800;

pub const TOP_FRONT_LEFT: u32 = 0x1000;

pub const TOP_FRONT_CENTRE: u32 = 0x2000;

pub const TOP_FRONT_RIGHT: u32 = 0x4000;

pub const TOP_REAR_LEFT: u32 = 0x8000;

pub const TOP_REAR_CENTRE: u32 = 0x10000;

pub const TOP_REAR_RIGHT: u32 = 0x20000;

pub const REAR_LEFT_CENTRE: u32 = 0x40000;

pub const REAR_RIGHT_CENTRE: u32 = 0x80000;

pub const FRONT_LEFT_WIDE: u32 = 0x100000;

pub const FRONT_RIGHT_WIDE: u32 = 0x200000;

pub const FRONT_LEFT_HIGH: u32 = 0x400000;

pub const FRONT_CENTRE_HIGH: u32 = 0x800000;

pub const FRONT_RIGHT_HIGH: u32 = 0x1000000;

pub const LFE2: u32 = 0x2000000;

/// The single-channel layout.
pub const MONO: u32 = FRONT_LEFT;

/// Front left and front right.
pub const STEREO: u32 = FRONT_LEFT | FRONT_RIGHT;

/// Stereo plus the low-frequency channel.
pub const STEREO_2_1: u32 = STEREO | LFE1;

/// 5.1 surround: stereo 2.1 plus front centre and the rear pair.
pub const SURROUND_5_1: u32 = STEREO_2_1 | FRONT_CENTRE | REAR_LEFT | REAR_RIGHT;

/// 7.1 surround: 5.1 plus the side pair.
pub const SURROUND_7_1: u32 = SURROUND_5_1 | SIDE_LEFT | SIDE_RIGHT;

/// The number of set bits in `m`.
pub open spec fn popcount(m: nat) -> nat
    decreases m,
{
    if m == 0 {
        0
    } else {
        (m % 2) + popcount(m / 2)
    }
}

/// The number of set bits in a value never exceeds the value.
pub proof fn lemma_popcount_le_self(m: nat)
    ensures
        popcount(m) <= m,
    decreases m,
{
    if m != 0 {
        lemma_popcount_le_self(m / 2);
    }
}

/// A named set of channels, as a bitmask with one bit per speaker
/// position.
#[derive(Debug, Default, Clone, Copy, PartialEq, Eq, Structural)]
pub struct ChannelLayout {
    mask: u32,
}

impl ChannelLayout {
    /// The bitmask of this layout.
    pub closed spec fn mask_view(self) -> u32 {
        self.mask
    }

    /// The layout with exactly the bits of `mask` set.
    pub fn from_bits(mask: u32) -> (r: Self)
        ensures
            r.mask_view() == mask,
    {
        ChannelLayout { mask }
    }

    /// The number of channels in the layout: the popcount of its mask.
    pub fn count(&self) -> (r: u32)
        ensures
            r as nat == popcount(self.mask_view() as nat),
    {
        let ghost orig: nat = self.mask as nat;
        let mut m: u32 = self.mask;
        let mut c: u32 = 0;
        proof {
            lemma_popcount_le_self(orig);
        }
        while m != 0
            invariant
                c as nat + popcount(m as nat) == popcount(orig),
                popcount(orig) <= orig <= u32::MAX,
            decreases m,
        {
            assert(m & 1 == m % 2) by (bit_vector);
            assert(m >> 1 == m / 2) by (bit_vector);
            let bit = m & 1;
            m = m >> 1;
            c = c + bit;
        }
        c
    }

    /// The layout whose mask keeps the bits present in both operands.
    pub fn and(self, rhs: Self) -> (r: Self)
        ensures
            r.mask_view() == (self.mask_view() & rhs.mask_view()),
    {
        ChannelLayout { mask: self.mask & rhs.mask }
    }

    /// The layout whose mask joins the bits of both operands.
    pub fn or(self, rhs: Self) -> (r: Self)
        ensures
            r.mask_view() == (self.mask_view() | rhs.mask_view()),
    {
        ChannelLayout { mask: self.mask | rhs.mask }
    }

    /// The layout whose mask keeps the bits present in exactly one operand.
    pub fn xor(self, rhs: Self) -> (r: Self)
        ensures
            r.mask_view() == (self.mask_view() ^ rhs.mask_view()),
    {
        ChannelLayout { mask: self.mask ^ rhs.mask }
    }
}

/// The channels of a signal: either a bare count, or a named layout whose
/// count is the popcount of its mask.
#[derive(Debug, Clone, Copy, PartialEq, Eq, Structural)]
pub enum Channels {
    Count(u32),
    Layout(ChannelLayout),
}

impl Channels {
    /// The number of channels.
    pub open spec fn count_spec(self) -> nat {
        match self {
            Channels::Count(n) => n as nat,
            Channels::Layout(l) => popcount(l.mask_view() as nat),
        }
    }

    /// The number of channels: the explicit count, or the popcount of the
    /// layout's mask.
    pub fn count(&self) -> (r: u32)
        ensures
            r as nat == self.count_spec(),
    {
        match self {
            Channels::Count(n) => *n,
            Channels::Layout(layout) => layout.count(),
        }
    }

    /// The named layout, if the channels carry one.
    pub fn layout(&self) -> (r: Option<&ChannelLayout>)
        ensures
            match *self {
                Channels::Count(_) => r is None,
                Channels::Layout(l) => r matches Some(p) && *p == l,
            },
    {
        match self {
            Channels::Count(_) => None,
            Channels::Layout(layout) => Some(layout),
        }
    }
}

impl From<u32> for Channels {
    /// A bare count becomes `Channels::Count`.
    fn from(n: u32) -> (r: Channels) {
        Channels::Count(n)
    }
}

impl vstd::std_specs::convert::FromSpecImpl<u32> for Channels {
    open spec fn obeys_from_spec() -> bool {
        true
    }

    open spec fn from_spec(n: u32) -> Channels {
        Channels::Count(n)
    }
}

impl From<ChannelLayout> for Channels {
    /// A named layout becomes `Channels::Layout`.
    fn from(layout: ChannelLayout) -> (r: Channels) {
        Channels::Layout(layout)
    }
}

impl vstd::std_specs::convert::FromSpecImpl<ChannelLayout> for Channels {
    open spec fn obeys_from_spec() -> bool {
        true
    }

    open spec fn from_spec(layout: ChannelLayout) -> Channels {
        Channels::Layout(layout)
    }
}

/// A set of parameters that describes a PCM signal.
#[derive(Debug, Clone, Copy)]
pub struct SignalSpec {
    /// The number of frames per second.
    pub frame_rate: u32,
    /// The layout of the channels in the signal.
    pub channels: Channels,
    /// The total number of frames in the signal, where known.
    pub n_frames: Option<u64>,
}

impl PartialEq for SignalSpec {
    fn eq(&self, other: &SignalSpec) -> (r: bool) {
        let frames_eq = match (self.n_frames, other.n_frames) {
            (Option::None, Option::None) => true,
            (Option::Some(a), Option::Some(b)) => a == b,
            _ => false,
        };
        self.frame_rate == other.frame_rate && self.channels == other.channels && frames_eq
    }
}

impl vstd::std_specs::cmp::PartialEqSpecImpl for SignalSpec {
    open spec fn obeys_eq_spec() -> bool {
        true
    }

    open spec fn eq_spec(&self, other: &SignalSpec) -> bool {
        self.frame_rate == other.frame_rate && self.channels == other.channels && self.n_frames
            == other.n_frames
    }
}

impl SignalSpec {
    /// The total number of samples, when the frame count is known and the
    /// product fits a `u64`.
    pub open spec fn n_samples_spec(self) -> Option<u64> {
        match self.n_frames {
            Option::None => Option::None,
            Option::Some(n) => {
                let p = n * self.channels.count_spec();
                if p <= u64::MAX {
                    Option::Some(p as u64)
                } else {
                    Option::None
                }
            },
        }
    }

    /// The duration in nanoseconds, when the frame count is known and the
    /// frame rate is positive.
    pub open spec fn duration_spec(self) -> Option<u128> {
        match self.n_frames {
            Option::None => Option::None,
            Option::Some(n) => if self.frame_rate > 0 {
                Option::Some((n * 1_000_000_000 / (self.frame_rate as int)) as u128)
            } else {
                Option::None
            },
        }
    }

    /// A fresh, fully unset builder.
    pub fn builder() -> (r: SignalSpecBuilder)
        ensures
            r == SignalSpecBuilder::empty_spec(),
    {
        SignalSpecBuilder::new()
    }

    /// The total number of samples: `n_frames * channels.count()`, `None`
    /// when the frame count is unknown or the product does not fit.
    pub fn n_samples(&self) -> (r: Option<u64>)
        ensures
            r == self.n_samples_spec(),
    {
        match self.n_frames {
            Option::None => None,
            Option::Some(n) => n.checked_mul(self.channels.count() as u64),
        }
    }

    /// The duration in nanoseconds: `n_frames / frame_rate` seconds, `None`
    /// when the frame count is unknown or the frame rate is zero.
    pub fn duration(&self) -> (r: Option<u128>)
        ensures
            r == self.duration_spec(),
    {
        match self.n_frames {
            Option::None => None,
            Option::Some(n) => {
                if self.frame_rate == 0 {
                    None
                } else {
                    proof {
                        assert(n * 1_000_000_000 <= u64::MAX * 1_000_000_000) by (nonlinear_arith)
                            requires
                                n <= u64::MAX,
                        ;
                    }
                    Some((n as u128) * 1_000_000_000 / (self.frame_rate as u128))
                }
            },
        }
    }
}

/// A partially specified [`SignalSpec`].
#[derive(Debug, Clone, Copy)]
pub struct SignalSpecBuilder {
    pub frame_rate: Option<u32>,
    pub channels: Option<Channels>,
    pub n_frames: Option<u64>,
}

/// The builder carrying exactly the fields of `s`.
pub open spec fn builder_of(s: SignalSpec) -> SignalSpecBuilder {
    SignalSpecBuilder {
        frame_rate: Option::Some(s.frame_rate),
        channels: Option::Some(s.channels),
        n_frames: s.n_frames,
    }
}

/// What building a partial specification yields: the completed
/// specification, or `MissingData` when the frame rate or the channels are
/// unset.
pub open spec fn build_spec(b: SignalSpecBuilder) -> Result<SignalSpec, PhonicError> {
    match (b.frame_rate, b.channels) {
        (Option::Some(frame_rate), Option::Some(channels)) => Result::Ok(
            SignalSpec { frame_rate, channels, n_frames: b.n_frames },
        ),
        _ => Result::Err(PhonicError::MissingData),
    }
}

/// Rebuilding a specification from its own builder gives it back: the
/// builder round trip is the identity, and never fails.
pub proof fn lemma_build_round_trip(s: SignalSpec)
    ensures
        build_spec(builder_of(s)) == Result::<SignalSpec, PhonicError>::Ok(s),
{
}

/// Building fails exactly when the frame rate or the channels are unset,
/// and then with `MissingData`.
pub proof fn lemma_build_missing_data(b: SignalSpecBuilder)
    ensures
        build_spec(b) is Err <==> (b.frame_rate is None || b.channels is None),
        build_spec(b) is Err ==> build_spec(b) == Result::<SignalSpec, PhonicError>::Err(
            PhonicError::MissingData,
        ),
{
}

impl SignalSpecBuilder {
    /// The builder with every field unset.
    pub open spec fn empty_spec() -> SignalSpecBuilder {
        SignalSpecBuilder { frame_rate: Option::None, channels: Option::None, n_frames: Option::None }
    }

    /// A builder with every field unset.
    pub fn new() -> (r: Self)
        ensures
            r == SignalSpecBuilder::empty_spec(),
    {
        SignalSpecBuilder { frame_rate: None, channels: None, n_frames: None }
    }

    /// The total number of samples, when both the frame count and the
    /// channels are set and the product fits a `u64`.
    pub fn n_samples(&self) -> (r: Option<u64>)
        ensures
            match (self.n_frames, self.channels) {
                (Option::Some(n), Option::Some(c)) => {
                    let p = n * c.count_spec();
                    if p <= u64::MAX {
                        r == Option::<u64>::Some(p as u64)
                    } else {
                        r is None
                    }
                },
                _ => r is None,
            },
    {
        match (self.n_frames, self.channels) {
            (Option::Some(n), Option::Some(c)) => n.checked_mul(c.count() as u64),
            _ => None,
        }
    }

    /// The duration in nanoseconds, when both the frame count and a
    /// positive frame rate are set.
    pub fn duration(&self) -> (r: Option<u128>)
        ensures
            match (self.n_frames, self.frame_rate) {
                (Option::Some(n), Option::Some(hz)) => if hz > 0 {
                    r == Option::<u128>::Some((n * 1_000_000_000 / (hz as int)) as u128)
                } else {
                    r is None
                },
                _ => r is None,
            },
    {
        match (self.n_frames, self.frame_rate) {
            (Option::Some(n), Option::Some(hz)) => {
                if hz == 0 {
                    None
                } else {
                    proof {
                        assert(n * 1_000_000_000 <= u64::MAX * 1_000_000_000) by (nonlinear_arith)
                            requires
                                n <= u64::MAX,
                        ;
                    }
                    Some((n as u128) * 1_000_000_000 / (hz as u128))
                }
            },
            _ => None,
        }
    }

    /// The same builder with the frame rate set.
    pub fn with_frame_rate(self, frame_rate: u32) -> (r: Self)
        ensures
            r == (SignalSpecBuilder { frame_rate: Option::Some(frame_rate), ..self }),
    {
        SignalSpecBuilder { frame_rate: Some(frame_rate), ..self }
    }

    /// The same builder with the channels set.
    pub fn with_channels(self, channels: Channels) -> (r: Self)
        ensures
            r == (SignalSpecBuilder { channels: Option::Some(channels), ..self }),
    {
        SignalSpecBuilder { channels: Some(channels), ..self }
    }

    /// The same builder with the frame count replaced.
    pub fn with_n_frames(self, n_frames: Option<u64>) -> (r: Self)
        ensures
            r == (SignalSpecBuilder { n_frames, ..self }),
    {
        SignalSpecBuilder { n_frames, ..self }
    }

    /// The same builder with the frame count derived from a duration in
    /// nanoseconds: `frame_rate * nanos / 1e9`, saturated to `u64::MAX`,
    /// when the frame rate is set; the frame count is cleared otherwise.
    pub fn with_duration(self, nanos: u128) -> (r: Self)
        ensures
            r.frame_rate == self.frame_rate,
            r.channels == self.channels,
            match self.frame_rate {
                Option::None => r.n_frames is None,
                Option::Some(hz) => {
                    let f = hz * nanos / 1_000_000_000;
                    r.n_frames == Option::<u64>::Some(
                        if f > u64::MAX {
                            u64::MAX
                        } else {
                            f as u64
                        },
                    )
                },
            },
    {
        let n_frames = match self.frame_rate {
            Option::None => None,
            Option::Some(hz) => Some(
                match (hz as u128).checked_mul(nanos) {
                    Option::None => {
                        proof {
                            assert((hz as int) * (nanos as int) / 1_000_000_000 > u64::MAX)
                                by (nonlinear_arith)
                                requires
                                    (hz as int) * (nanos as int) > u128::MAX,
                            ;
                        }
                        u64::MAX
                    },
                    Option::Some(p) => {
                        let f = p / 1_000_000_000;
                        if f > u64::MAX as u128 {
                            u64::MAX
                        } else {
                            f as u64
                        }
                    },
                },
            ),
        };
        SignalSpecBuilder { n_frames, ..self }
    }

    /// Completes the specification: `MissingData` exactly when the frame
    /// rate or the channels are unset.
    pub fn build(self) -> (r: Result<SignalSpec, PhonicError>)
        ensures
            r == build_spec(self),
    {
        match (self.channels, self.frame_rate) {
            (Option::Some(channels), Option::Some(frame_rate)) => Ok(
                SignalSpec { channels, frame_rate, n_frames: self.n_frames },
            ),
            _ => Err(PhonicError::MissingData),
        }
    }

    /// The builder carrying exactly the fields of an already complete
    /// specification.
    pub fn from_spec(s: SignalSpec) -> (r: Self)
        ensures
            r == builder_of(s),
    {
        SignalSpecBuilder {
            frame_rate: Some(s.frame_rate),
            channels: Some(s.channels),
            n_frames: s.n_frames,
        }
    }
}

/// Something with a fixed signal specification.
pub trait Signal {
    type Sample: Sample;

    /// The specification, as an abstract value.
    spec fn spec_view(&self) -> SignalSpec;

    /// The immutable descriptor of this signal.
    fn signal_spec(&self) -> (s: SignalSpec)
        ensures
            s == self.spec_view(),
    ;
}

/// A signal that yields samples.
///
/// The reader's behaviour is pinned by two abstractions: `remaining()`, the
/// samples it will still deliver, in order; and `read_retries()`, a finite
/// allowance of transient failures. A successful read delivers a prefix of
/// `remaining()`; returning zero samples from a non-empty buffer signals
/// the end of the data.
pub trait SignalReader: Signal {
    /// The samples this reader will still deliver, in order.
    spec fn remaining(&self) -> Seq<Self::Sample>;

    /// How many transient failures this reader may still report.
    spec fn read_retries(&self) -> nat;

    /// Reads samples into a prefix of `buf`, returning how many were read.
    /// Zero means end of data or, together with a transient error, a
    /// not-ready condition. A transient failure or a reported end of
    /// stream consumes nothing.
    fn read(&mut self, buf: &mut Vec<Self::Sample>) -> (r: Result<usize, PhonicError>)
        ensures
            final(self).spec_view() == old(self).spec_view(),
            final(buf)@.len() == old(buf)@.len(),
            final(self).read_retries() <= old(self).read_retries(),
            match r {
                Result::Ok(n) => {
                    &&& n <= final(buf)@.len()
                    &&& n <= old(self).remaining().len()
                    &&& final(buf)@.take(n as int) == old(self).remaining().take(n as int)
                    &&& final(self).remaining() == old(self).remaining().skip(n as int)
                },
                Result::Err(e) => {
                    &&& e.is_nonconsuming() ==> final(self).remaining() == old(self).remaining()
                    &&& e.is_transient() ==> final(self).read_retries() < old(self).read_retries()
                },
            },
    ;

    /// Fills all of `buf`, retrying `Interrupted` immediately and never
    /// surfacing it; a short transfer ends with `EndOfStream`. An empty
    /// buffer always succeeds.
    fn read_exact(&mut self, buf: &mut Vec<Self::Sample>) -> (r: Result<(), PhonicError>)
        ensures
            final(self).spec_view() == old(self).spec_view(),
            final(buf)@.len() == old(buf)@.len(),
            final(self).read_retries() <= old(self).read_retries(),
            old(buf)@.len() == 0 ==> r is Ok,
            r matches Result::Err(e) ==> e != PhonicError::Interrupted,
            r is Ok ==> {
                &&& old(buf)@.len() <= old(self).remaining().len()
                &&& final(buf)@ == old(self).remaining().take(old(buf)@.len() as int)
                &&& final(self).remaining() == old(self).remaining().skip(old(buf)@.len() as int)
            },
    {
        let total = buf.len();
        let mut filled: usize = 0;
        while filled < total
            invariant
                filled <= total,
                total == buf@.len(),
                buf@.len() == old(buf)@.len(),
                self.spec_view() == old(self).spec_view(),
                self.read_retries() <= old(self).read_retries(),
                filled <= old(self).remaining().len(),
                buf@.take(filled as int) == old(self).remaining().take(filled as int),
                self.remaining() == old(self).remaining().skip(filled as int),
            decreases total - filled, self.read_retries(),
        {
            let mut tmp = vec_range(buf, filled, total);
            let ghost rem_before = self.remaining();
            match self.read(&mut tmp) {
                Result::Ok(0) => {
                    return Err(PhonicError::EndOfStream);
                },
                Result::Ok(n) => {
                    vec_copy_in(buf, filled, &tmp, n);
                    proof {
                        assert(buf@.take(filled + n as int) =~= old(self).remaining().take(
                            filled + n as int,
                        ));
                        assert(self.remaining() =~= old(self).remaining().skip(filled + n as int));
                    }
                    filled = filled + n;
                },
                Result::Err(e) => {
                    if e != PhonicError::Interrupted {
                        return Err(e);
                    }
                },
            }
        }
        proof {
            assert(buf@ =~= buf@.take(filled as int));
        }
        Ok(())
    }
}

/// A signal that accepts samples.
///
/// `written()` is the sequence of samples the writer has accepted so far; a
/// successful write appends a prefix of the offered buffer to it.
pub trait SignalWriter: Signal {
    /// The samples this writer has accepted so far, in order.
    spec fn written(&self) -> Seq<Self::Sample>;

    /// How many transient failures this writer may still report.
    spec fn write_retries(&self) -> nat;

    /// Writes a prefix of `buf`, returning how many samples were accepted.
    /// Zero means the writer cannot accept any more data. A transient
    /// failure or a reported end of stream accepts nothing.
    fn write(&mut self, buf: &Vec<Self::Sample>) -> (r: Result<usize, PhonicError>)
        ensures
            final(self).spec_view() == old(self).spec_view(),
            final(self).write_retries() <= old(self).write_retries(),
            match r {
                Result::Ok(n) => {
                    &&& n <= buf@.len()
                    &&& final(self).written() == old(self).written() + buf@.take(n as int)
                },
                Result::Err(e) => {
                    &&& e.is_nonconsuming() ==> final(self).written() == old(self).written()
                    &&& e.is_transient() ==> final(self).write_retries() < old(
                        self,
                    ).write_retries()
                },
            },
    ;

    /// Commits buffered output.
    fn flush(&mut self) -> (r: Result<(), PhonicError>)
        ensures
            final(self).spec_view() == old(self).spec_view(),
            final(self).write_retries() <= old(self).write_retries(),
            final(self).written() == old(self).written(),
    ;

    /// Writes all of `buf`, retrying `Interrupted` immediately and never
    /// surfacing it; a writer that cannot absorb everything ends with
    /// `EndOfStream`. An empty buffer always succeeds.
    fn write_exact(&mut self, buf: &Vec<Self::Sample>) -> (r: Result<(), PhonicError>)
        ensures
            final(self).spec_view() == old(self).spec_view(),
            final(self).write_retries() <= old(self).write_retries(),
            buf@.len() == 0 ==> r is Ok,
            r matches Result::Err(e) ==> e != PhonicError::Interrupted,
            r is Ok ==> final(self).written() == old(self).written() + buf@,
    {
        let total = buf.len();
        let mut sent: usize = 0;
        while sent < total
            invariant
                sent <= total,
                total == buf@.len(),
                self.spec_view() == old(self).spec_view(),
                self.write_retries() <= old(self).write_retries(),
                self.written() == old(self).written() + buf@.take(sent as int),
            decreases total - sent, self.write_retries(),
        {
            let tmp = vec_range(buf, sent, total);
            match self.write(&tmp) {
                Result::Ok(0) => {
                    return Err(PhonicError::EndOfStream);
                },
                Result::Ok(n) => {
                    proof {
                        assert(old(self).written() + buf@.take(sent as int) + tmp@.take(n as int)
                            =~= old(self).written() + buf@.take(sent + n as int));
                    }
                    sent = sent + n;
                },
                Result::Err(e) => {
                    if e != PhonicError::Interrupted {
                        return Err(e);
                    }
                },
            }
        }
        proof {
            assert(buf@.take(total as int) =~= buf@);
        }
        Ok(())
    }
}

/// An owning handle forwards the signal contract unchanged: boxing a signal
/// does not change its observable behaviour.
///
/// `Box` is the one handle provided; a shared-with-exclusive-access handle
/// (several users taking turns over one object, serialized by the caller)
/// is not modelled here, so sharing one container between several
/// selectors requires handing the container over between them.
impl<T: Signal> Signal for Box<T> {
    type Sample = T::Sample;

    open spec fn spec_view(&self) -> SignalSpec {
        (**self).spec_view()
    }

    fn signal_spec(&self) -> (s: SignalSpec) {
        (**self).signal_spec()
    }
}

impl<T: SignalReader> SignalReader for Box<T> {
    open spec fn remaining(&self) -> Seq<Self::Sample> {
        (**self).remaining()
    }

    open spec fn read_retries(&self) -> nat {
        (**self).read_retries()
    }

    fn read(&mut self, buf: &mut Vec<Self::Sample>) -> (r: Result<usize, PhonicError>) {
        (**self).read(buf)
    }
}

impl<T: SignalWriter> SignalWriter for Box<T> {
    open spec fn written(&self) -> Seq<Self::Sample> {
        (**self).written()
    }

    open spec fn write_retries(&self) -> nat {
        (**self).write_retries()
    }

    fn write(&mut self, buf: &Vec<Self::Sample>) -> (r: Result<usize, PhonicError>) {
        (**self).write(buf)
    }

    fn flush(&mut self) -> (r: Result<(), PhonicError>) {
        (**self).flush()
    }
}

/// A signal wrapper that re-declares the channels of its inner signal while
/// leaving every other field of the specification unchanged.
pub struct ChannelsAdapter<T: Signal> {
    signal: T,
    adapted: SignalSpec,
}

impl<T: Signal> ChannelsAdapter<T> {
    /// Wraps `signal`, declaring `channels` in place of its own.
    pub fn new(signal: T, channels: Channels) -> (r: Self)
        ensures
            r.spec_view() == (SignalSpec { channels, ..signal.spec_view() }),
            r.inner_view() == signal,
    {
        let mut adapted = signal.signal_spec();
        adapted.channels = channels;
        ChannelsAdapter { signal, adapted }
    }

    /// The wrapped signal, as an abstract value.
    pub closed spec fn inner_view(&self) -> T {
        self.signal
    }
}

impl<T: Signal> Signal for ChannelsAdapter<T> {
    type Sample = T::Sample;

    closed spec fn spec_view(&self) -> SignalSpec {
        self.adapted
    }

    fn signal_spec(&self) -> (s: SignalSpec) {
        self.adapted
    }
}

} // verus!
