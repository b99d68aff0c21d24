//! The audio mixer: a fixed table of sound channels composited each frame
//! into a double-buffered sample stream that hardware reads by DMA.
//!
//! Each frame, the active/inactive buffer flag swaps and the DMA engine is
//! pointed at the buffer that is now active — the one fully mixed during the
//! previous frame — while the other buffer is cleared and re-mixed.  The
//! swap happening at the frame boundary is the only thing that orders the
//! software fill against the hardware read, so the buffer made active must
//! never be the one currently being filled.

use vstd::prelude::*;
use crate::ResourceError;

verus! {

/// The fixed mixing rate, chosen to divide the hardware clock cleanly.
pub const SOUND_FREQUENCY: i32 = 10512;

/// Samples mixed per frame: the size of each half of the double buffer.
pub const SOUND_BUFFER_SIZE: usize = 176;

/// Number of slots in the mixer's channel table.
pub const CHANNEL_COUNT: usize = 16;

/// The memory-mapped control surface the mixer drives, modelled as plain
/// data and owned by the [`Mixer`] so that exclusivity and initialization
/// order are explicit.  `dma1_source` holds which half of the double buffer
/// the DMA engine streams (it stands for that buffer's address).
pub struct HardwareRegisters {
    pub dma1_control: u16,
    pub dma1_source: u32,
    pub dma1_dest: u32,
    pub timer0_counter: u16,
    pub timer0_control: u16,
    pub sound_control: u16,
    pub sound_control_x: u16,
}

/// Address of the sound FIFO the DMA engine feeds.
pub const FIFOA_DEST_ADDR: u32 = 0x0400_00a0;

/// Points the DMA engine at one half of the double buffer and enables it:
/// fixed destination, word transfers, repeat, sound-FIFO timing.
pub fn enable_dma1_for_sound(hw: &mut HardwareRegisters, buffer_id: u32)
    ensures
        final(hw).dma1_control == (2u16 << 5 | 1u16 << 9 | 1u16 << 10 | 3u16 << 12 | 1u16 << 15),
        final(hw).dma1_source == buffer_id,
        final(hw).dma1_dest == FIFOA_DEST_ADDR,
        final(hw).timer0_counter == old(hw).timer0_counter,
        final(hw).timer0_control == old(hw).timer0_control,
        final(hw).sound_control == old(hw).sound_control,
        final(hw).sound_control_x == old(hw).sound_control_x,
{
    let dest_fixed: u16 = 2 << 5;
    let repeat: u16 = 1 << 9;
    let transfer_type: u16 = 1 << 10;
    let dma_start_timing: u16 = 3 << 12;
    let enable: u16 = 1 << 15;

    hw.dma1_control = 0;
    hw.dma1_source = buffer_id;
    hw.dma1_dest = FIFOA_DEST_ADDR;
    hw.dma1_control = dest_fixed | repeat | transfer_type | dma_start_timing | enable;
}

/// Enables stereo output at full volume and resets the sound FIFO.
pub fn set_sound_control_register_for_mixer(hw: &mut HardwareRegisters)
    ensures
        final(hw).sound_control == (1u16 << 2 | 1u16 << 8 | 1u16 << 9 | 1u16 << 11),
        final(hw).sound_control_x == (1u16 << 7),
        final(hw).dma1_control == old(hw).dma1_control,
        final(hw).dma1_source == old(hw).dma1_source,
        final(hw).dma1_dest == old(hw).dma1_dest,
        final(hw).timer0_counter == old(hw).timer0_counter,
        final(hw).timer0_control == old(hw).timer0_control,
{
    let sound_a_volume_100: u16 = 1 << 2;
    let sound_a_rout: u16 = 1 << 8;
    let sound_a_lout: u16 = 1 << 9;
    let sound_a_fifo_reset: u16 = 1 << 11;

    hw.sound_control = sound_a_volume_100 | sound_a_rout | sound_a_lout | sound_a_fifo_reset;
    hw.sound_control_x = 1 << 7;
}

/// Programs the timer that paces the DMA so that one sample is consumed per
/// period at the requested rate: the counter reloads at
/// `65536 - clock / frequency` with a 2^24 Hz clock.
pub fn set_timer_counter_for_frequency_and_enable(hw: &mut HardwareRegisters, frequency: i32)
    requires
        256 <= frequency <= 16777216,
    ensures
        final(hw).timer0_counter == 65536int - 16777216int / (frequency as int),
        final(hw).timer0_control == (1u16 << 7),
        final(hw).dma1_control == old(hw).dma1_control,
        final(hw).dma1_source == old(hw).dma1_source,
        final(hw).dma1_dest == old(hw).dma1_dest,
        final(hw).sound_control == old(hw).sound_control,
        final(hw).sound_control_x == old(hw).sound_control_x,
{
    proof {
        assert(1 <= 16777216int / (frequency as int) <= 65536) by (nonlinear_arith)
            requires
                256 <= frequency <= 16777216,
        ;
    }
    let counter = 65536 - (16777216 / frequency);
    hw.timer0_counter = counter as u16;
    hw.timer0_control = 1 << 7;
}

/// A playing audio stream: an immutable sample buffer and a read cursor.
/// Samples are signed 8-bit values carried in bytes; the channel is finished
/// once the cursor passes the end of the buffer.
pub struct SoundChannel {
    pub data: Vec<u8>,
    pub pos: usize,
}

impl SoundChannel {
    /// A channel the mixer can drain frame by frame: the cursor sits on a
    /// frame boundary and the buffer holds a positive whole number of
    /// frame-sized windows, so every read of a full window stays in bounds.
    pub open spec fn wf(&self) -> bool {
        &&& self.pos % SOUND_BUFFER_SIZE == 0
        &&& self.data@.len() as int % (SOUND_BUFFER_SIZE as int) == 0
        &&& self.data@.len() > 0
    }

    pub fn new(data: Vec<u8>) -> (r: SoundChannel)
        ensures
            r.data == data,
            r.pos == 0,
    {
        SoundChannel { data, pos: 0 }
    }
}

/// The sample a byte of channel data stands for: its two's-complement
/// reading as a signed 8-bit value.
pub open spec fn as_signed(b: u8) -> i8 {
    if b < 128 {
        b as i8
    } else {
        (b - 256) as i8
    }
}

/// Saturating signed 8-bit addition: sums clip to the representable range
/// instead of wrapping.  Clipping distortion is an accepted trade-off of
/// software mixing.
pub open spec fn sat_add_spec(a: i8, b: i8) -> i8 {
    if a + b > 127 {
        127
    } else if a + b < -128 {
        (-128) as i8
    } else {
        (a + b) as i8
    }
}

fn to_sample(b: u8) -> (r: i8)
    ensures
        r == as_signed(b),
{
    if b < 128 {
        b as i8
    } else {
        let t: i16 = b as i16 - 256;
        t as i8
    }
}

fn sat_add(a: i8, b: i8) -> (r: i8)
    ensures
        r == sat_add_spec(a, b),
{
    let s: i16 = a as i16 + b as i16;
    if s > 127 {
        127
    } else if s < -128 {
        -128
    } else {
        s as i8
    }
}

/// A frame of silence.
pub open spec fn zero_buffer() -> Seq<i8> {
    Seq::new(SOUND_BUFFER_SIZE as nat, |i: int| 0i8)
}

/// `buf` with one frame-sized window of a channel's samples, starting at
/// `pos`, added in with saturation.
pub open spec fn mix_window(buf: Seq<i8>, data: Seq<u8>, pos: int) -> Seq<i8> {
    Seq::new(SOUND_BUFFER_SIZE as nat, |i: int| sat_add_spec(buf[i], as_signed(data[pos + i])))
}

/// The mix of the first `n` channel slots: silence, with each occupied
/// slot's current window added in, in table order.
pub open spec fn mix_channels_upto(chs: Seq<Option<SoundChannel>>, n: int) -> Seq<i8>
    decreases n,
{
    if n <= 0 {
        zero_buffer()
    } else {
        match chs[n - 1] {
            Some(ch) => mix_window(mix_channels_upto(chs, n - 1), ch.data@, ch.pos as int),
            None => mix_channels_upto(chs, n - 1),
        }
    }
}

/// The frame mix of a full channel table.
pub open spec fn mixed(chs: Seq<Option<SoundChannel>>) -> Seq<i8> {
    mix_channels_upto(chs, chs.len() as int)
}

/// A channel after one frame: the cursor advances by one window, and the
/// channel leaves the table once the cursor passes the end of its buffer.
pub open spec fn stepped_channel(ch: SoundChannel) -> Option<SoundChannel> {
    if ch.pos + SOUND_BUFFER_SIZE >= ch.data@.len() {
        None
    } else {
        Some(SoundChannel { data: ch.data, pos: (ch.pos + SOUND_BUFFER_SIZE) as usize })
    }
}

/// The double buffer: two frame-sized sample buffers and the flag selecting
/// which one the hardware is streaming.  Exactly one is active at any time;
/// the inactive one is the mix target for the next frame.
pub struct MixerBuffer {
    pub buffer1: Vec<i8>,
    pub buffer2: Vec<i8>,
    pub buffer_1_active: bool,
}

impl MixerBuffer {
    pub open spec fn wf(&self) -> bool {
        &&& self.buffer1@.len() == SOUND_BUFFER_SIZE
        &&& self.buffer2@.len() == SOUND_BUFFER_SIZE
    }

    /// Contents of the buffer the hardware is streaming.
    pub open spec fn active_contents(&self) -> Seq<i8> {
        if self.buffer_1_active {
            self.buffer1@
        } else {
            self.buffer2@
        }
    }

    /// Contents of the buffer being filled for the next frame.
    pub open spec fn inactive_contents(&self) -> Seq<i8> {
        if self.buffer_1_active {
            self.buffer2@
        } else {
            self.buffer1@
        }
    }

    pub fn new() -> (r: MixerBuffer)
        ensures
            r.wf(),
            r.buffer_1_active,
            r.buffer1@ == zero_buffer(),
            r.buffer2@ == zero_buffer(),
    {
        let buffer1 = zeroed_buffer();
        let buffer2 = zeroed_buffer();
        MixerBuffer { buffer1, buffer2, buffer_1_active: true }
    }

    /// Flips the active flag and hands the newly active buffer — the one
    /// mixed during the previous frame — to the DMA engine.
    pub fn swap(&mut self, hw: &mut HardwareRegisters)
        ensures
            final(self).buffer_1_active == !old(self).buffer_1_active,
            final(self).buffer1 == old(self).buffer1,
            final(self).buffer2 == old(self).buffer2,
            final(hw).dma1_source == if final(self).buffer_1_active {
                0u32
            } else {
                1u32
            },
            final(hw).dma1_control == (2u16 << 5 | 1u16 << 9 | 1u16 << 10 | 3u16 << 12 | 1u16
                << 15),
            final(hw).dma1_dest == FIFOA_DEST_ADDR,
            final(hw).timer0_counter == old(hw).timer0_counter,
            final(hw).timer0_control == old(hw).timer0_control,
            final(hw).sound_control == old(hw).sound_control,
            final(hw).sound_control_x == old(hw).sound_control_x,
    {
        self.buffer_1_active = !self.buffer_1_active;

        if self.buffer_1_active {
            enable_dma1_for_sound(hw, 0);
        } else {
            enable_dma1_for_sound(hw, 1);
        }
    }

    /// Clears the inactive buffer — the next mix target — to silence.
    pub fn clear(&mut self)
        requires
            old(self).wf(),
        ensures
            final(self).wf(),
            final(self).buffer_1_active == old(self).buffer_1_active,
            final(self).active_contents() == old(self).active_contents(),
            final(self).inactive_contents() == zero_buffer(),
    {
        if self.buffer_1_active {
            self.buffer2 = zeroed_buffer();
        } else {
            self.buffer1 = zeroed_buffer();
        }
    }

    /// Adds one window of a channel's samples into the inactive buffer with
    /// saturating addition.
    pub fn write_channel(&mut self, channel: &SoundChannel)
        requires
            old(self).wf(),
            channel.pos + SOUND_BUFFER_SIZE <= channel.data@.len(),
        ensures
            final(self).wf(),
            final(self).buffer_1_active == old(self).buffer_1_active,
            final(self).active_contents() == old(self).active_contents(),
            final(self).inactive_contents() == mix_window(
                old(self).inactive_contents(),
                channel.data@,
                channel.pos as int,
            ),
    {
        let mut mixed_buffer: Vec<i8> = Vec::new();
        let ghost target = self.inactive_contents();
        let data_len = channel.data.len();
        let mut i: usize = 0;
        while i < SOUND_BUFFER_SIZE
            invariant
                i <= SOUND_BUFFER_SIZE,
                self == old(self),
                self.wf(),
                data_len == channel.data@.len(),
                channel.pos + SOUND_BUFFER_SIZE <= data_len,
                target == self.inactive_contents(),
                mixed_buffer@.len() == i,
                forall|j: int|
                    0 <= j < i ==> (#[trigger] mixed_buffer@[j]) == sat_add_spec(
                        target[j],
                        as_signed(channel.data@[channel.pos + j]),
                    ),
            decreases SOUND_BUFFER_SIZE - i,
        {
            let sample = to_sample(channel.data[channel.pos + i]);
            let current = if self.buffer_1_active {
                self.buffer2[i]
            } else {
                self.buffer1[i]
            };
            mixed_buffer.push(sat_add(current, sample));
            i += 1;
        }
        proof {
            assert(mixed_buffer@ =~= mix_window(target, channel.data@, channel.pos as int));
        }
        if self.buffer_1_active {
            self.buffer2 = mixed_buffer;
        } else {
            self.buffer1 = mixed_buffer;
        }
    }
}

fn zeroed_buffer() -> (r: Vec<i8>)
    ensures
        r@ == zero_buffer(),
{
    let mut buffer: Vec<i8> = Vec::new();
    let mut i: usize = 0;
    while i < SOUND_BUFFER_SIZE
        invariant
            i <= SOUND_BUFFER_SIZE,
            buffer@.len() == i,
            forall|j: int| 0 <= j < i ==> (#[trigger] buffer@[j]) == 0i8,
        decreases SOUND_BUFFER_SIZE - i,
    {
        buffer.push(0);
        i += 1;
    }
    proof {
        assert(buffer@ =~= zero_buffer());
    }
    buffer
}

/// The index of the first empty channel slot from `i` upward; `chs.len()`
/// if every slot from `i` on is occupied.
pub open spec fn first_empty_from(chs: Seq<Option<SoundChannel>>, i: int) -> int
    decreases chs.len() - i,
{
    if i < 0 || i >= chs.len() {
        chs.len() as int
    } else if chs[i] is None {
        i
    } else {
        first_empty_from(chs, i + 1)
    }
}

/// True if every channel slot is occupied.
pub open spec fn table_full(chs: Seq<Option<SoundChannel>>) -> bool {
    forall|i: int| 0 <= i < chs.len() ==> (#[trigger] chs[i]) is Some
}

/// If every slot below `i` is occupied, the first empty slot overall is the
/// first empty slot at or above `i`.
proof fn lemma_first_empty_skip(chs: Seq<Option<SoundChannel>>, i: int)
    requires
        0 <= i <= chs.len(),
        forall|j: int| 0 <= j < i ==> (#[trigger] chs[j]) is Some,
    ensures
        first_empty_from(chs, 0) == first_empty_from(chs, i),
    decreases i,
{
    if i > 0 {
        lemma_first_empty_skip(chs, i - 1);
    }
}

/// What one frame step does: the active flag flips and the DMA engine is
/// pointed at the newly active buffer, whose contents — last frame's mix —
/// are untouched; the other buffer is remixed from the channel table; every
/// occupied channel advances by one window and leaves the table once its
/// cursor passes the end of its buffer.
pub open spec fn frame_step_post(pre: Mixer, post: Mixer) -> bool {
    &&& post.buffer.buffer_1_active == !pre.buffer.buffer_1_active
    &&& post.buffer.active_contents() == pre.buffer.inactive_contents()
    &&& post.buffer.inactive_contents() == mixed(pre.channels@)
    &&& post.channels@.len() == pre.channels@.len()
    &&& (forall|i: int|
        0 <= i < pre.channels@.len() ==> (#[trigger] post.channels@[i]) == match pre.channels@[i] {
            Some(ch) => stepped_channel(ch),
            None => None,
        })
    &&& post.hw.dma1_source == if post.buffer.buffer_1_active {
        0u32
    } else {
        1u32
    }
    &&& post.hw.dma1_control == (2u16 << 5 | 1u16 << 9 | 1u16 << 10 | 3u16 << 12 | 1u16 << 15)
    &&& post.hw.dma1_dest == FIFOA_DEST_ADDR
    &&& post.hw.timer0_counter == pre.hw.timer0_counter
    &&& post.hw.timer0_control == pre.hw.timer0_control
    &&& post.hw.sound_control == pre.hw.sound_control
    &&& post.hw.sound_control_x == pre.hw.sound_control_x
}

/// The mixer: the fixed channel table, the double buffer, and the hardware
/// registers it drives.
pub struct Mixer {
    pub buffer: MixerBuffer,
    pub channels: Vec<Option<SoundChannel>>,
    pub hw: HardwareRegisters,
}

impl Mixer {
    pub open spec fn wf(&self) -> bool {
        &&& self.buffer.wf()
        &&& self.channels@.len() == CHANNEL_COUNT
        &&& (forall|i: int|
            0 <= i < self.channels@.len() ==> match #[trigger] self.channels@[i] {
                Some(ch) => ch.wf() && ch.pos < ch.data@.len(),
                None => true,
            })
    }

    pub fn new() -> (r: Mixer)
        ensures
            r.wf(),
            r.buffer.buffer_1_active,
            r.buffer.buffer1@ == zero_buffer(),
            r.buffer.buffer2@ == zero_buffer(),
            forall|i: int| 0 <= i < CHANNEL_COUNT ==> (#[trigger] r.channels@[i]) is None,
            r.hw.dma1_control == 0 && r.hw.dma1_source == 0 && r.hw.dma1_dest == 0,
            r.hw.timer0_counter == 0 && r.hw.timer0_control == 0,
            r.hw.sound_control == 0 && r.hw.sound_control_x == 0,
    {
        let mut channels: Vec<Option<SoundChannel>> = Vec::new();
        let mut i: usize = 0;
        while i < CHANNEL_COUNT
            invariant
                i <= CHANNEL_COUNT,
                channels@.len() == i,
                forall|j: int| 0 <= j < i ==> (#[trigger] channels@[j]) is None,
            decreases CHANNEL_COUNT - i,
        {
            channels.push(None);
            i += 1;
        }
        Mixer {
            buffer: MixerBuffer::new(),
            channels,
            hw: HardwareRegisters {
                dma1_control: 0,
                dma1_source: 0,
                dma1_dest: 0,
                timer0_counter: 0,
                timer0_control: 0,
                sound_control: 0,
                sound_control_x: 0,
            },
        }
    }

    /// Configures the hardware once: the sample-rate timer and the sound
    /// control registers.  The DMA engine itself is pointed at a buffer on
    /// each frame step.
    pub fn enable(&mut self)
        ensures
            final(self).buffer == old(self).buffer,
            final(self).channels == old(self).channels,
            final(self).hw.timer0_counter == 65536int - 16777216int / (SOUND_FREQUENCY as int),
            final(self).hw.timer0_control == (1u16 << 7),
            final(self).hw.sound_control == (1u16 << 2 | 1u16 << 8 | 1u16 << 9 | 1u16 << 11),
            final(self).hw.sound_control_x == (1u16 << 7),
            final(self).hw.dma1_control == old(self).hw.dma1_control,
            final(self).hw.dma1_source == old(self).hw.dma1_source,
            final(self).hw.dma1_dest == old(self).hw.dma1_dest,
    {
        set_timer_counter_for_frequency_and_enable(&mut self.hw, SOUND_FREQUENCY);
        set_sound_control_register_for_mixer(&mut self.hw);
    }

    /// One frame step, to be called once per frame at the vertical-blank
    /// boundary: swaps the double buffer and starts the DMA on the buffer
    /// mixed last frame, clears the other buffer, and composites every
    /// occupied channel's next window into it, evicting finished channels.
    pub fn vblank(&mut self)
        requires
            old(self).wf(),
        ensures
            final(self).wf(),
            frame_step_post(*old(self), *final(self)),
    {
        self.buffer.swap(&mut self.hw);
        self.buffer.clear();

        let ghost pre_channels = self.channels@;
        let ghost hw_after_swap = self.hw;
        let ghost active_after_swap = self.buffer.active_contents();
        let ghost flag_after_swap = self.buffer.buffer_1_active;

        let mut i: usize = 0;
        while i < CHANNEL_COUNT
            invariant
                i <= CHANNEL_COUNT,
                self.buffer.wf(),
                self.channels@.len() == CHANNEL_COUNT,
                pre_channels.len() == CHANNEL_COUNT,
                forall|j: int|
                    0 <= j < pre_channels.len() ==> match #[trigger] pre_channels[j] {
                        Some(ch) => ch.wf() && ch.pos < ch.data@.len(),
                        None => true,
                    },
                self.hw == hw_after_swap,
                self.buffer.buffer_1_active == flag_after_swap,
                self.buffer.active_contents() == active_after_swap,
                self.buffer.inactive_contents() == mix_channels_upto(pre_channels, i as int),
                forall|j: int| i <= j < CHANNEL_COUNT ==> (#[trigger] self.channels@[j])
                    == pre_channels[j],
                forall|j: int|
                    0 <= j < i ==> (#[trigger] self.channels@[j]) == match pre_channels[j] {
                        Some(ch) => stepped_channel(ch),
                        None => None,
                    },
                forall|j: int|
                    0 <= j < self.channels@.len() ==> match #[trigger] self.channels@[j] {
                        Some(ch) => ch.wf() && ch.pos < ch.data@.len(),
                        None => true,
                    },
            decreases CHANNEL_COUNT - i,
        {
            let channel_entry = self.channels.remove(i);
            match channel_entry {
                Some(mut some_channel) => {
                    self.buffer.write_channel(&some_channel);
                    proof {
                        // A whole number of windows remains past the cursor,
                        // so advancing it cannot overflow the length.
                        assert(some_channel.pos + SOUND_BUFFER_SIZE <= some_channel.data@.len())
                            by (nonlinear_arith)
                            requires
                                some_channel.pos % SOUND_BUFFER_SIZE == 0,
                                some_channel.data@.len() as int % (SOUND_BUFFER_SIZE as int) == 0,
                                some_channel.pos < some_channel.data@.len(),
                                SOUND_BUFFER_SIZE > 0,
                        ;
                    }
                    let data_len = some_channel.data.len();
                    some_channel.pos = some_channel.pos + SOUND_BUFFER_SIZE;

                    if some_channel.pos >= data_len {
                        self.channels.insert(i, None);
                    } else {
                        self.channels.insert(i, Some(some_channel));
                    }
                },
                None => {
                    self.channels.insert(i, None);
                },
            }
            i += 1;
        }
        proof {
            assert(mix_channels_upto(pre_channels, CHANNEL_COUNT as int) == mixed(pre_channels));
        }
    }

    /// Installs a channel in the first empty slot of the table; fails with
    /// `ResourceExhausted`, dropping the channel and changing nothing, when
    /// all slots are occupied.
    pub fn play_sound(&mut self, new_channel: SoundChannel) -> (r: Result<(), ResourceError>)
        requires
            old(self).wf(),
            new_channel.wf(),
            new_channel.pos < new_channel.data@.len(),
        ensures
            final(self).wf(),
            final(self).buffer == old(self).buffer,
            final(self).hw == old(self).hw,
            table_full(old(self).channels@) ==> {
                &&& r == Result::<(), ResourceError>::Err(ResourceError::ResourceExhausted)
                &&& final(self).channels == old(self).channels
            },
            !table_full(old(self).channels@) ==> {
                &&& r == Result::<(), ResourceError>::Ok(())
                &&& final(self).channels@ == old(self).channels@.update(
                    first_empty_from(old(self).channels@, 0),
                    Some(new_channel),
                )
            },
    {
        let mut i: usize = 0;
        while i < CHANNEL_COUNT
            invariant
                i <= CHANNEL_COUNT,
                self == old(self),
                self.wf(),
                new_channel.wf(),
                new_channel.pos < new_channel.data@.len(),
                forall|j: int| 0 <= j < i ==> (#[trigger] self.channels@[j]) is Some,
            decreases CHANNEL_COUNT - i,
        {
            let occupied = self.channels[i].is_some();
            if !occupied {
                proof {
                    lemma_first_empty_skip(self.channels@, i as int);
                }
                let freed_entry = self.channels.remove(i);
                proof {
                    assert(freed_entry is None);
                }
                self.channels.insert(i, Some(new_channel));
                proof {
                    assert(self.channels@ =~= old(self).channels@.update(
                        i as int,
                        Some(new_channel),
                    ));
                    assert forall|j: int|
                        0 <= j < self.channels@.len() implies match #[trigger] self.channels@[j] {
                        Some(ch) => ch.wf() && ch.pos < ch.data@.len(),
                        None => true,
                    } by {
                        if j != i {
                            assert(self.channels@[j] == old(self).channels@[j]);
                            assert(match old(self).channels@[j] {
                                Some(ch) => ch.wf() && ch.pos < ch.data@.len(),
                                None => true,
                            });
                        } else {
                            assert(self.channels@[j] == Some(new_channel));
                        }
                    }
                }
                return Ok(());
            }
            i += 1;
        }
        proof {
            lemma_first_empty_skip(self.channels@, CHANNEL_COUNT as int);
        }
        Err(ResourceError::ResourceExhausted)
    }
}

/// The process-wide owner of the audio hardware, from which the one mixer
/// is obtained.
pub struct MixerController {}

impl MixerController {
    pub fn new() -> (r: MixerController) {
        MixerController {  }
    }

    pub fn mixer(&mut self) -> (r: Mixer)
        ensures
            r.wf(),
            r.buffer.buffer_1_active,
            forall|i: int| 0 <= i < CHANNEL_COUNT ==> (#[trigger] r.channels@[i]) is None,
    {
        Mixer::new()
    }
}

/// Double-buffer alternation: across consecutive frame steps the active
/// flag strictly alternates, and the buffer written during one step is
/// exactly the buffer made active — with its contents intact and handed to
/// the DMA engine — by the next step.
pub proof fn lemma_double_buffer_alternation(m0: Mixer, m1: Mixer, m2: Mixer)
    requires
        frame_step_post(m0, m1),
        frame_step_post(m1, m2),
    ensures
        m1.buffer.buffer_1_active == !m0.buffer.buffer_1_active,
        m2.buffer.buffer_1_active == m0.buffer.buffer_1_active,
        m2.buffer.active_contents() == mixed(m0.channels@),
{
}

} // verus!
