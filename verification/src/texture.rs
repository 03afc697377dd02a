//! Caller-owned pixel buffers that a renderer composites as their own
//! textures, plus the bookkeeping that keeps re-uploads down to the pixels
//! that actually changed.
//!
//! A producer publishes frames with [`ExternalTextureBuffer::submit`]. Every
//! renderer drawing the buffer reads the current frame, decides with
//! [`plan_external_texture_update`] whether to recreate, partially upload or
//! reuse its cached texture, and acknowledges what it uploaded. Dirty regions
//! are kept until every renderer that has drawn the buffer has caught up.
use vstd::prelude::*;

verus! {

/// A length or coordinate in device pixels.
#[derive(Debug, Clone, Copy, PartialEq, Eq, Structural)]
pub struct DevicePixels(pub i32);


/// The size of a buffer that holds no frame.
pub open spec fn zero_size_spec() -> Size {
    Size { width: DevicePixels(0), height: DevicePixels(0) }
}

/// The size of a buffer that holds no frame.
#[verifier::when_used_as_spec(zero_size_spec)]
pub fn zero_size() -> (s: Size)
    ensures
        s == zero_size_spec(),
{
    Size { width: DevicePixels(0), height: DevicePixels(0) }
}

/// A position in device pixels.
#[derive(Debug, Clone, Copy, PartialEq, Eq, Structural)]
pub struct Point {
    pub x: DevicePixels,
    pub y: DevicePixels,
}

/// A width and height in device pixels.
#[derive(Debug, Clone, Copy, PartialEq, Eq, Structural)]
pub struct Size {
    pub width: DevicePixels,
    pub height: DevicePixels,
}

/// An axis-aligned rectangle: its top-left corner and its extent.
#[derive(Debug, Clone, Copy, PartialEq, Eq, Structural)]
pub struct Bounds {
    pub origin: Point,
    pub size: Size,
}

/// A point from its two coordinates.
pub fn point(x: DevicePixels, y: DevicePixels) -> (p: Point)
    ensures
        p == (Point { x, y }),
{
    Point { x, y }
}

/// A size from its width and height.
pub fn size(width: DevicePixels, height: DevicePixels) -> (s: Size)
    ensures
        s == (Size { width, height }),
{
    Size { width, height }
}

/// Stable identity for one external texture across frames.
#[derive(Debug, Clone, Copy, PartialEq, Eq, Structural)]
pub struct ExternalTextureId(pub u64);

/// Identity of one renderer drawing a buffer's frames.
#[derive(Debug, Clone, Copy, PartialEq, Eq, Structural)]
pub struct ExternalTextureConsumerId(pub u64);

/// The consumer slot that single-consumer acknowledgements use.
pub const LEGACY_CONSUMER: u64 = 0;

/// Hands out identities in increasing order, so no two callers of one
/// sequence ever receive the same number.
pub struct IdSequence {
    last: u64,
}

impl IdSequence {
    /// The last number handed out (0 before the first).
    pub closed spec fn last(&self) -> u64 {
        self.last
    }

    /// A sequence that has handed out nothing yet.
    pub fn new() -> (s: Self)
        ensures
            s.last() == 0,
    {
        IdSequence { last: 0 }
    }

    /// Whether every number has been handed out.
    pub fn is_exhausted(&self) -> (b: bool)
        ensures
            b == (self.last() == u64::MAX),
    {
        self.last == u64::MAX
    }

    /// The next number: one more than the previous.
    pub fn next_raw(&mut self) -> (id: u64)
        requires
            old(self).last() < u64::MAX,
        ensures
            id == old(self).last() + 1,
            final(self).last() == id,
    {
        self.last = self.last + 1;
        self.last
    }
}

impl ExternalTextureId {
    /// An id that no earlier call on the same sequence handed out.
    pub fn next(ids: &mut IdSequence) -> (id: Self)
        requires
            old(ids).last() < u64::MAX,
        ensures
            id.0 == old(ids).last() + 1,
            final(ids).last() == id.0,
    {
        ExternalTextureId(ids.next_raw())
    }
}

impl ExternalTextureConsumerId {
    /// The slot that [`ExternalTextureBuffer::mark_uploaded`] acknowledges.
    pub fn legacy() -> (id: Self)
        ensures
            id.0 == LEGACY_CONSUMER,
    {
        ExternalTextureConsumerId(LEGACY_CONSUMER)
    }

    /// An id that no earlier call on the same sequence handed out. Ids start
    /// at 1, so none collides with the legacy slot.
    pub fn next(ids: &mut IdSequence) -> (id: Self)
        requires
            old(ids).last() < u64::MAX,
        ensures
            id.0 == old(ids).last() + 1,
            id.0 != LEGACY_CONSUMER,
            final(ids).last() == id.0,
    {
        ExternalTextureConsumerId(ids.next_raw())
    }
}

/// Byte order of a frame's pixels; both variants have four bytes per pixel.
#[derive(Debug, Clone, Copy, PartialEq, Eq, Structural)]
pub enum ExternalTextureFormat {
    Bgra8,
    Rgba8,
}

impl ExternalTextureFormat {
    /// Bytes per pixel. Both variants are 4.
    pub fn bytes_per_pixel(self) -> (n: usize)
        ensures
            n == 4,
    {
        4
    }
}

/// A signed coordinate taken as a length: negative values count as zero.
pub open spec fn nonneg(v: i32) -> int {
    if v < 0 {
        0
    } else {
        v as int
    }
}

/// Whether `len` bytes hold a frame of the given size and row stride, and the
/// geometry fits the machine's and the upload APIs' integer widths.
pub open spec fn geometry_fits(size: Size, stride: usize, len: int) -> bool {
    let w = nonneg(size.width.0);
    let h = nonneg(size.height.0);
    &&& w > 0
    &&& h > 0
    &&& w * 4 <= usize::MAX
    &&& stride >= w * 4
    &&& stride <= u32::MAX
    &&& stride * h <= usize::MAX
    &&& stride * h <= len
}

/// `v` limited to the range from `lo` to `hi`.
pub open spec fn clamp(v: int, lo: int, hi: int) -> int {
    if v < lo {
        lo
    } else if v > hi {
        hi
    } else {
        v
    }
}

/// The whole of a buffer of the given size.
pub open spec fn full_bounds(size: Size) -> Bounds {
    Bounds { origin: Point { x: DevicePixels(0), y: DevicePixels(0) }, size }
}

/// A dirty rectangle cut down to the buffer; `None` when nothing of it is left.
pub open spec fn clip_rect(rect: Bounds, size: Size) -> Option<Bounds> {
    if rect.size.width.0 <= 0 || rect.size.height.0 <= 0 {
        None
    } else {
        let w = nonneg(size.width.0);
        let h = nonneg(size.height.0);
        let left = clamp(rect.origin.x.0 as int, 0, w);
        let top = clamp(rect.origin.y.0 as int, 0, h);
        let right = clamp(rect.origin.x.0 + rect.size.width.0, left, w);
        let bottom = clamp(rect.origin.y.0 + rect.size.height.0, top, h);
        if right > left && bottom > top {
            Some(
                Bounds {
                    origin: Point { x: DevicePixels(left as i32), y: DevicePixels(top as i32) },
                    size: Size {
                        width: DevicePixels((right - left) as i32),
                        height: DevicePixels((bottom - top) as i32),
                    },
                },
            )
        } else {
            None
        }
    }
}

/// The clipped rectangles of `dirty` that keep some area, in order.
pub open spec fn clip_all(dirty: Seq<Bounds>, size: Size) -> Seq<Bounds>
    decreases dirty.len(),
{
    if dirty.len() == 0 {
        seq![]
    } else {
        let rest = clip_all(dirty.drop_last(), size);
        match clip_rect(dirty.last(), size) {
            Some(r) => rest.push(r),
            None => rest,
        }
    }
}

/// What a renderer must upload: the clipped dirty rectangles, or the whole
/// frame when the list is empty or none of it lies inside the buffer.
pub open spec fn upload_regions(dirty: Seq<Bounds>, size: Size) -> Seq<Bounds> {
    if dirty.len() == 0 || clip_all(dirty, size).len() == 0 {
        seq![full_bounds(size)]
    } else {
        clip_all(dirty, size)
    }
}

/// Whether a rectangle has area and lies inside a buffer of the given size.
pub open spec fn inside(r: Bounds, size: Size) -> bool {
    &&& 0 <= r.origin.x.0
    &&& 0 <= r.origin.y.0
    &&& 0 < r.size.width.0
    &&& 0 < r.size.height.0
    &&& r.origin.x.0 + r.size.width.0 <= nonneg(size.width.0)
    &&& r.origin.y.0 + r.size.height.0 <= nonneg(size.height.0)
}

proof fn lemma_clip_all_inside(dirty: Seq<Bounds>, size: Size)
    ensures
        forall|i: int|
            0 <= i < clip_all(dirty, size).len() ==> inside(#[trigger] clip_all(dirty, size)[i], size),
        clip_all(dirty, size).len() <= dirty.len(),
    decreases dirty.len(),
{
    if dirty.len() > 0 {
        lemma_clip_all_inside(dirty.drop_last(), size);
    }
}

/// A look at a frame: its geometry, its pixels and what changed in it.
pub struct ExternalFrameView<'a> {
    /// Pixel dimensions of the whole buffer.
    pub size: Size,
    /// Bytes between the start of one row and the start of the next.
    pub stride: usize,
    /// Channel order of `bytes`.
    pub format: ExternalTextureFormat,
    /// The pixels.
    pub bytes: &'a [u8],
    /// Bumped whenever the buffer is reallocated.
    pub generation: u64,
    /// Bumped on every published frame.
    pub sequence: u64,
    /// Regions that changed since the oldest frame a renderer still needs;
    /// empty means the whole frame.
    pub dirty: &'a [Bounds],
}

impl<'a> ExternalFrameView<'a> {
    /// Whether the pixels are long enough for the declared geometry, so a
    /// renderer may index them.
    pub fn is_well_formed(&self) -> (ok: bool)
        ensures
            ok == geometry_fits(self.size, self.stride, self.bytes@.len() as int),
    {
        let width: usize = if self.size.width.0 < 0 {
            0
        } else {
            self.size.width.0 as usize
        };
        let height: usize = if self.size.height.0 < 0 {
            0
        } else {
            self.size.height.0 as usize
        };
        if width == 0 || height == 0 {
            return false;
        }
        let row_bytes = match width.checked_mul(self.format.bytes_per_pixel()) {
            Some(r) => r,
            None => {
                return false;
            },
        };
        if self.stride < row_bytes || self.stride > 0xffff_ffffusize {
            return false;
        }
        match self.stride.checked_mul(height) {
            Some(needed) => needed <= self.bytes.len(),
            None => false,
        }
    }

    /// The dirty regions clipped to the buffer, with an empty list (or one
    /// whose every rectangle falls outside) meaning the whole frame.
    pub fn dirty_regions(&self) -> (regions: Vec<Bounds>)
        ensures
            regions@ == upload_regions(self.dirty@, self.size),
            regions@.len() >= 1,
            regions@.len() <= if self.dirty@.len() == 0 {
                1
            } else {
                self.dirty@.len()
            },
            self.dirty@.len() > 0 && clip_all(self.dirty@, self.size).len() > 0 ==> forall|i: int|
                0 <= i < regions@.len() ==> inside(#[trigger] regions@[i], self.size),
    {
        let full = Bounds { origin: point(DevicePixels(0), DevicePixels(0)), size: self.size };
        let mut regions: Vec<Bounds> = Vec::new();
        let w: i64 = if self.size.width.0 < 0 {
            0
        } else {
            self.size.width.0 as i64
        };
        let h: i64 = if self.size.height.0 < 0 {
            0
        } else {
            self.size.height.0 as i64
        };
        let n = self.dirty.len();
        let mut i: usize = 0;
        while i < n
            invariant
                n == self.dirty@.len(),
                i <= n,
                w == nonneg(self.size.width.0),
                h == nonneg(self.size.height.0),
                regions@ == clip_all(self.dirty@.take(i as int), self.size),
            decreases n - i,
        {
            let rect = self.dirty[i];
            proof {
                assert(self.dirty@.take(i as int + 1).drop_last() == self.dirty@.take(i as int));
                assert(self.dirty@.take(i as int + 1).last() == rect);
            }
            if rect.size.width.0 > 0 && rect.size.height.0 > 0 {
                let x = rect.origin.x.0 as i64;
                let y = rect.origin.y.0 as i64;
                let left: i64 = if x < 0 {
                    0
                } else if x > w {
                    w
                } else {
                    x
                };
                let top: i64 = if y < 0 {
                    0
                } else if y > h {
                    h
                } else {
                    y
                };
                let xe = x + rect.size.width.0 as i64;
                let ye = y + rect.size.height.0 as i64;
                let right: i64 = if xe < left {
                    left
                } else if xe > w {
                    w
                } else {
                    xe
                };
                let bottom: i64 = if ye < top {
                    top
                } else if ye > h {
                    h
                } else {
                    ye
                };
                if right > left && bottom > top {
                    regions.push(
                        Bounds {
                            origin: point(DevicePixels(left as i32), DevicePixels(top as i32)),
                            size: size(
                                DevicePixels((right - left) as i32),
                                DevicePixels((bottom - top) as i32),
                            ),
                        },
                    );
                }
            }
            i = i + 1;
        }
        proof {
            assert(self.dirty@.take(n as int) == self.dirty@);
            lemma_clip_all_inside(self.dirty@, self.size);
        }
        if regions.len() == 0 {
            let mut all: Vec<Bounds> = Vec::new();
            all.push(full);
            all
        } else {
            regions
        }
    }
}

/// What a renderer keeps about the texture it cached for a buffer.
#[derive(Debug, Clone, Copy, PartialEq, Eq, Structural)]
pub struct ExternalTextureCacheKey {
    /// Which buffer the cached texture belongs to.
    pub id: ExternalTextureId,
    /// Which allocation; a change means recreate.
    pub generation: u64,
    /// Which frame; a change means upload the dirty rectangles.
    pub sequence: u64,
    /// Cached texture dimensions.
    pub size: Size,
}

/// The decision a renderer makes for one external texture this frame.
#[derive(Debug, Clone, Copy, PartialEq, Eq, Structural)]
pub enum ExternalTextureUpdate {
    /// No cached texture, or the producer reallocated: create and upload whole.
    Recreate,
    /// Same texture, new pixels: upload the dirty rectangles.
    UploadDirty,
    /// Nothing changed: draw the cached texture and upload nothing.
    Reuse,
}

/// The plan for a cached texture given the frame on offer, as a function of
/// the cache key and the frame's generation, size and sequence.
pub open spec fn planned_update(
    cached: Option<ExternalTextureCacheKey>,
    generation: u64,
    size: Size,
    sequence: u64,
) -> ExternalTextureUpdate {
    match cached {
        Some(k) => if k.generation == generation && k.size == size {
            if k.sequence == sequence {
                ExternalTextureUpdate::Reuse
            } else {
                ExternalTextureUpdate::UploadDirty
            }
        } else {
            ExternalTextureUpdate::Recreate
        },
        None => ExternalTextureUpdate::Recreate,
    }
}

/// Decide what to do with a cached texture given the frame on offer.
pub fn plan_external_texture_update(
    cached: Option<ExternalTextureCacheKey>,
    frame: &ExternalFrameView<'_>,
) -> (plan: ExternalTextureUpdate)
    ensures
        plan == planned_update(cached, frame.generation, frame.size, frame.sequence),
{
    match cached {
        Some(k) => {
            if k.generation == frame.generation && k.size == frame.size {
                if k.sequence == frame.sequence {
                    ExternalTextureUpdate::Reuse
                } else {
                    ExternalTextureUpdate::UploadDirty
                }
            } else {
                ExternalTextureUpdate::Recreate
            }
        },
        None => ExternalTextureUpdate::Recreate,
    }
}

/// The most dirty rectangles a buffer keeps before it falls back to a full
/// upload.
pub const MAX_DIRTY_RECTS: usize = 64;

/// One published frame.
struct ExternalFrame {
    bytes: Vec<u8>,
    size: Size,
    stride: usize,
    format: ExternalTextureFormat,
    generation: u64,
    sequence: u64,
    dirty: Vec<Bounds>,
}

/// The published frame, as renderers see it.
pub struct FrameModel {
    pub bytes: Seq<u8>,
    pub size: Size,
    pub stride: usize,
    pub format: ExternalTextureFormat,
    pub generation: u64,
    pub sequence: u64,
    pub dirty: Seq<Bounds>,
}

/// The whole state of a buffer.
pub struct BufferModel {
    pub id: ExternalTextureId,
    /// Geometry of the current allocation (zero before the first frame).
    pub size: Size,
    pub stride: usize,
    pub format: Option<ExternalTextureFormat>,
    pub generation: u64,
    /// Frames published since the last release; 0 means no frame.
    pub sequence: u64,
    /// Rectangles still owed to some renderer; empty means the whole frame.
    pub dirty: Seq<Bounds>,
    pub frame: Option<FrameModel>,
    /// Acknowledgements counted, wrapping.
    pub uploads: u64,
    /// Last acknowledged sequence of each renderer that has drawn the buffer.
    pub acks: Map<u64, u64>,
}

/// One renderer's last acknowledged frame.
struct ConsumerAck {
    consumer: u64,
    acked: u64,
}

/// A frame producer plus the bookkeeping renderers rely on: the published
/// frame, dirty-rectangle accumulation, sequence and generation counters,
/// per-renderer acknowledgements and the upload counter.
pub struct ExternalTextureBuffer {
    id: ExternalTextureId,
    size: Size,
    stride: usize,
    format: Option<ExternalTextureFormat>,
    generation: u64,
    sequence: u64,
    dirty: Vec<Bounds>,
    frame: Option<ExternalFrame>,
    uploads: u64,
    consumers: Vec<ConsumerAck>,
}

/// The map of acknowledgements a list of entries stands for.
spec fn acks_map(v: Seq<ConsumerAck>) -> Map<u64, u64>
    decreases v.len(),
{
    if v.len() == 0 {
        Map::empty()
    } else {
        acks_map(v.drop_last()).insert(v.last().consumer, v.last().acked)
    }
}

/// No consumer appears twice.
spec fn acks_unique(v: Seq<ConsumerAck>) -> bool {
    forall|i: int, j: int| 0 <= i < j < v.len() ==> v[i].consumer != v[j].consumer
}

proof fn lemma_acks_map(v: Seq<ConsumerAck>)
    requires
        acks_unique(v),
    ensures
        acks_map(v).dom().finite(),
        forall|c: u64| acks_map(v).contains_key(c) <==> exists|i: int| 0 <= i < v.len() && v[i].consumer == c,
        forall|i: int| 0 <= i < v.len() ==> #[trigger] acks_map(v)[v[i].consumer] == v[i].acked,
    decreases v.len(),
{
    if v.len() > 0 {
        let p = v.drop_last();
        assert(acks_unique(p));
        lemma_acks_map(p);
        assert forall|c: u64| acks_map(v).contains_key(c) implies exists|i: int|
            0 <= i < v.len() && v[i].consumer == c by {
            if c != v.last().consumer {
                let i = choose|i: int| 0 <= i < p.len() && p[i].consumer == c;
                assert(v[i].consumer == c);
            } else {
                assert(v[v.len() - 1].consumer == c);
            }
        }
        assert forall|c: u64| (exists|i: int| 0 <= i < v.len() && v[i].consumer == c) implies acks_map(v).contains_key(c) by {
            let i = choose|i: int| 0 <= i < v.len() && v[i].consumer == c;
            if i < v.len() - 1 {
                assert(p[i].consumer == c);
            }
        }
        assert forall|i: int| 0 <= i < v.len() implies #[trigger] acks_map(v)[v[i].consumer] == v[i].acked by {
            if i < v.len() - 1 {
                assert(p[i] == v[i]);
                assert(v[i].consumer != v.last().consumer);
            }
        }
    }
}

/// Whether some renderer that has drawn the buffer is behind its newest frame.
pub open spec fn has_unconsumed_spec(m: BufferModel) -> bool {
    m.sequence != 0 && exists|c: u64| m.acks.contains_key(c) && m.acks[c] < m.sequence
}

/// Whether publishing a frame of this geometry replaces the allocation.
pub open spec fn reallocates(m: BufferModel, size: Size, stride: usize, format: ExternalTextureFormat) -> bool {
    m.size != size || m.stride != stride || m.format != Some(format)
}

/// The rectangles owed to renderers after a frame with `dirty` is published.
pub open spec fn next_dirty(m: BufferModel, realloc: bool, dirty: Seq<Bounds>) -> Seq<Bounds> {
    if realloc {
        seq![]
    } else if has_unconsumed_spec(m) {
        if dirty.len() == 0 || m.dirty.len() + dirty.len() > MAX_DIRTY_RECTS {
            seq![]
        } else if m.dirty.len() != 0 {
            m.dirty + dirty
        } else {
            m.dirty
        }
    } else if dirty.len() <= MAX_DIRTY_RECTS {
        dirty
    } else {
        seq![]
    }
}

/// The largest acknowledged sequence, or 0.
pub open spec fn max_ack(acks: Map<u64, u64>) -> u64 {
    if exists|c: u64| acks.contains_key(c) {
        let c = choose|c: u64| acks.contains_key(c) && forall|d: u64| acks.contains_key(d) ==> acks[d] <= acks[c];
        acks[c]
    } else {
        0
    }
}

impl View for ExternalTextureBuffer {
    type V = BufferModel;

    closed spec fn view(&self) -> BufferModel {
        BufferModel {
            id: self.id,
            size: self.size,
            stride: self.stride,
            format: self.format,
            generation: self.generation,
            sequence: self.sequence,
            dirty: self.dirty@,
            frame: match self.frame {
                Some(f) => Some(
                    FrameModel {
                        bytes: f.bytes@,
                        size: f.size,
                        stride: f.stride,
                        format: f.format,
                        generation: f.generation,
                        sequence: f.sequence,
                        dirty: f.dirty@,
                    },
                ),
                None => None,
            },
            uploads: self.uploads,
            acks: acks_map(self.consumers@),
        }
    }
}

impl ExternalTextureBuffer {
    /// The buffer's own consistency: a frame exists exactly when one has
    /// been published since the last release, it mirrors the counters and the
    /// owed rectangles, its pixels fit its geometry, at most
    /// [`MAX_DIRTY_RECTS`] rectangles are owed, and no renderer is listed
    /// twice.
    pub closed spec fn wf(&self) -> bool {
        &&& acks_unique(self.consumers@)
        &&& self.dirty@.len() <= MAX_DIRTY_RECTS
        &&& (self.frame is Some <==> self.sequence > 0)
        &&& (self.frame is None ==> self.format is None && self.size == zero_size_spec() && self.stride == 0
            && self.dirty@.len() == 0)
        &&& match self.frame {
            Some(f) => {
                &&& f.sequence == self.sequence
                &&& f.generation == self.generation
                &&& f.size == self.size
                &&& f.stride == self.stride
                &&& self.format == Some(f.format)
                &&& f.dirty@ == self.dirty@
                &&& geometry_fits(f.size, f.stride, f.bytes@.len() as int)
                &&& f.bytes@.len() == f.stride * nonneg(f.size.height.0)
            },
            None => true,
        }
    }

    /// A buffer with no frame yet.
    pub fn new(id: ExternalTextureId) -> (b: Self)
        ensures
            b.wf(),
            b@.id == id,
            b@.size == zero_size(),
            b@.stride == 0,
            b@.format is None,
            b@.generation == 0,
            b@.sequence == 0,
            b@.dirty.len() == 0,
            b@.frame is None,
            b@.uploads == 0,
            b@.acks == Map::<u64, u64>::empty(),
    {
        let b = ExternalTextureBuffer {
            id,
            size: zero_size(),
            stride: 0,
            format: None,
            generation: 0,
            sequence: 0,
            dirty: Vec::new(),
            frame: None,
            uploads: 0,
            consumers: Vec::new(),
        };
        proof {
            assert(b.size == zero_size());
        }
        b
    }

    /// The buffer's identity.
    pub fn id(&self) -> (id: ExternalTextureId)
        ensures
            id == self@.id,
    {
        self.id
    }

    /// Whether any frame has been published since the last release.
    pub fn has_frame(&self) -> (b: bool)
        ensures
            b == (self@.sequence > 0),
    {
        self.sequence > 0
    }

    /// The frame counter.
    pub fn sequence(&self) -> (s: u64)
        ensures
            s == self@.sequence,
    {
        self.sequence
    }

    /// The allocation counter, bumped on every reallocation and release.
    pub fn generation(&self) -> (g: u64)
        ensures
            g == self@.generation,
    {
        self.generation
    }

    /// Current buffer dimensions, or zero before the first frame.
    pub fn size(&self) -> (s: Size)
        ensures
            s == self@.size,
    {
        self.size
    }

    /// How many acknowledgements this buffer has counted (wrapping).
    pub fn upload_count(&self) -> (n: u64)
        ensures
            n == self@.uploads,
    {
        self.uploads
    }

    /// The last frame acknowledged by any renderer, or 0.
    pub fn uploaded_sequence(&self) -> (s: u64)
        requires
            self.wf(),
        ensures
            s == max_ack(self@.acks),
    {
        proof {
            lemma_acks_map(self.consumers@);
        }
        let n = self.consumers.len();
        if n == 0 {
            proof {
                assert(!(exists|c: u64| self@.acks.contains_key(c)));
            }
            return 0;
        }
        let mut best: usize = 0;
        let mut i: usize = 1;
        while i < n
            invariant
                n == self.consumers@.len(),
                1 <= i <= n,
                best < i,
                forall|j: int| 0 <= j < i ==> self.consumers@[j].acked <= self.consumers@[best as int].acked,
            decreases n - i,
        {
            if self.consumers[i].acked > self.consumers[best].acked {
                best = i;
            }
            i = i + 1;
        }
        let ghost acks = self@.acks;
        let ghost cb = self.consumers@[best as int].consumer;
        proof {
            assert(acks.contains_key(cb));
            assert forall|d: u64| acks.contains_key(d) implies acks[d] <= acks[cb] by {
                let j = choose|j: int| 0 <= j < n && self.consumers@[j].consumer == d;
                assert(acks[self.consumers@[j].consumer] == self.consumers@[j].acked);
            }
            let c = choose|c: u64| acks.contains_key(c) && forall|d: u64| acks.contains_key(d) ==> acks[d] <= acks[c];
            assert(acks[c] <= acks[cb]);
            assert(acks[cb] <= acks[c]);
        }
        self.consumers[best].acked
    }

    /// The current frame, if one has been published since the last release.
    pub fn frame(&self) -> (view: Option<ExternalFrameView<'_>>)
        requires
            self.wf(),
        ensures
            view is Some <==> self@.sequence > 0,
            match (view, self@.frame) {
                (Some(v), Some(f)) => {
                    &&& v.bytes@ == f.bytes
                    &&& v.size == f.size
                    &&& v.stride == f.stride
                    &&& v.format == f.format
                    &&& v.generation == f.generation
                    &&& v.sequence == f.sequence
                    &&& v.dirty@ == f.dirty
                },
                (None, None) => true,
                _ => false,
            },
            view matches Some(v) ==> {
                &&& v.sequence == self@.sequence
                &&& v.generation == self@.generation
                &&& v.size == self@.size
                &&& v.stride == self@.stride
                &&& self@.format == Some(v.format)
                &&& v.dirty@ == self@.dirty
                &&& geometry_fits(v.size, v.stride, v.bytes@.len() as int)
                &&& v.dirty@.len() <= MAX_DIRTY_RECTS
            },
    {
        match &self.frame {
            Some(f) => Some(
                ExternalFrameView {
                    size: f.size,
                    stride: f.stride,
                    format: f.format,
                    bytes: f.bytes.as_slice(),
                    generation: f.generation,
                    sequence: f.sequence,
                    dirty: f.dirty.as_slice(),
                },
            ),
            None => None,
        }
    }

    /// Whether some renderer that has drawn this buffer is behind the frame
    /// the owed rectangles belong to.
    fn has_unconsumed(&self) -> (b: bool)
        requires
            self.wf(),
        ensures
            b == has_unconsumed_spec(self@),
    {
        proof {
            lemma_acks_map(self.consumers@);
        }
        if self.sequence == 0 {
            return false;
        }
        let n = self.consumers.len();
        let mut i: usize = 0;
        while i < n
            invariant
                self.wf(),
                n == self.consumers@.len(),
                i <= n,
                forall|j: int| 0 <= j < i ==> self.consumers@[j].acked >= self.sequence,
            decreases n - i,
        {
            if self.consumers[i].acked < self.sequence {
                proof {
                    lemma_acks_map(self.consumers@);
                    assert(self@.acks[self.consumers@[i as int].consumer] == self.consumers@[i as int].acked);
                    assert(self@.acks.contains_key(self.consumers@[i as int].consumer));
                }
                return true;
            }
            i = i + 1;
        }
        proof {
            assert forall|c: u64| self@.acks.contains_key(c) implies !(self@.acks[c] < self.sequence) by {
                let j = choose|j: int| 0 <= j < n && self.consumers@[j].consumer == c;
                assert(self@.acks[self.consumers@[j].consumer] == self.consumers@[j].acked);
            }
        }
        false
    }

    /// Where `consumer` stands in the acknowledgement list, if it is there.
    fn find_consumer(&self, consumer: u64) -> (r: Option<usize>)
        ensures
            match r {
                Some(i) => i < self.consumers@.len() && self.consumers@[i as int].consumer == consumer,
                None => forall|j: int| 0 <= j < self.consumers@.len() ==> self.consumers@[j].consumer != consumer,
            },
    {
        let n = self.consumers.len();
        let mut i: usize = 0;
        while i < n
            invariant
                n == self.consumers@.len(),
                i <= n,
                forall|j: int| 0 <= j < i ==> self.consumers@[j].consumer != consumer,
            decreases n - i,
        {
            if self.consumers[i].consumer == consumer {
                return Some(i);
            }
            i = i + 1;
        }
        None
    }

    /// Publish a frame.
    ///
    /// `dirty` is in texture pixels; an empty slice means the whole frame. A
    /// size, stride or format change reallocates and bumps the generation.
    /// Returns `false` and changes nothing when `bytes` is too small for the
    /// declared geometry or the geometry does not fit the integer widths.
    pub fn submit(
        &mut self,
        size: Size,
        stride: usize,
        format: ExternalTextureFormat,
        bytes: &[u8],
        dirty: &[Bounds],
    ) -> (accepted: bool)
        requires
            old(self).wf(),
            geometry_fits(size, stride, bytes@.len() as int) ==> old(self)@.sequence < u64::MAX
                && old(self)@.generation < u64::MAX,
        ensures
            final(self).wf(),
            accepted == geometry_fits(size, stride, bytes@.len() as int),
            !accepted ==> final(self)@ == old(self)@,
            accepted ==> {
                let realloc = reallocates(old(self)@, size, stride, format);
                let h = nonneg(size.height.0);
                &&& final(self)@.id == old(self)@.id
                &&& final(self)@.size == size
                &&& final(self)@.stride == stride
                &&& final(self)@.format == Some(format)
                &&& final(self)@.generation == old(self)@.generation + if realloc {
                    1int
                } else {
                    0int
                }
                &&& final(self)@.sequence == old(self)@.sequence + 1
                &&& final(self)@.dirty == next_dirty(old(self)@, realloc, dirty@)
                &&& final(self)@.uploads == old(self)@.uploads
                &&& final(self)@.acks == old(self)@.acks
                &&& final(self)@.frame == Some(
                    FrameModel {
                        bytes: bytes@.take(stride * h),
                        size,
                        stride,
                        format,
                        generation: final(self)@.generation,
                        sequence: final(self)@.sequence,
                        dirty: final(self)@.dirty,
                    },
                )
            },
    {
        let width: usize = if size.width.0 < 0 {
            0
        } else {
            size.width.0 as usize
        };
        let height: usize = if size.height.0 < 0 {
            0
        } else {
            size.height.0 as usize
        };
        if width == 0 || height == 0 || stride > 0xffff_ffffusize {
            return false;
        }
        match width.checked_mul(format.bytes_per_pixel()) {
            None => {
                return false;
            },
            Some(minimum) => {
                if stride < minimum {
                    return false;
                }
            },
        }
        let needed = match stride.checked_mul(height) {
            Some(n) => n,
            None => {
                return false;
            },
        };
        if needed > bytes.len() {
            return false;
        }
        let ghost old_model = self@;
        let realloc = self.size != size || self.stride != stride || match self.format {
            Some(f) => f != format,
            None => true,
        };
        let behind = self.has_unconsumed();
        let new_dirty: Vec<Bounds> = if realloc {
            Vec::new()
        } else if behind {
            if dirty.len() == 0 || self.dirty.len().saturating_add(dirty.len()) > MAX_DIRTY_RECTS {
                Vec::new()
            } else if self.dirty.len() != 0 {
                let mut d = copy_bounds(self.dirty.as_slice());
                append_bounds(&mut d, dirty);
                d
            } else {
                Vec::new()
            }
        } else if dirty.len() <= MAX_DIRTY_RECTS {
            copy_bounds(dirty)
        } else {
            Vec::new()
        };
        if realloc {
            self.size = size;
            self.stride = stride;
            self.format = Some(format);
            self.generation = self.generation + 1;
        }
        self.sequence = self.sequence + 1;
        let staged = copy_prefix(bytes, needed);
        let published = copy_bounds(new_dirty.as_slice());
        self.dirty = new_dirty;
        self.frame = Some(
            ExternalFrame {
                bytes: staged,
                size,
                stride,
                format,
                generation: self.generation,
                sequence: self.sequence,
                dirty: published,
            },
        );
        proof {
            assert(self.consumers@ == old(self).consumers@);
            if !realloc && behind && !(dirty@.len() == 0 || old_model.dirty.len() + dirty@.len() > MAX_DIRTY_RECTS) && old_model.dirty.len() != 0 {
                assert(self.dirty@ == old_model.dirty + dirty@);
            }
        }
        true
    }

    /// Record one renderer's upload of frame `sequence`: its acknowledgement
    /// becomes the larger of the old one and `sequence`, and the upload
    /// counter goes up by one (wrapping).
    fn acknowledge(&mut self, consumer: u64, sequence: u64)
        requires
            old(self).wf(),
        ensures
            final(self).wf(),
            final(self)@.acks == old(self)@.acks.insert(
                consumer,
                if old(self)@.acks.contains_key(consumer) && old(self)@.acks[consumer] > sequence {
                    old(self)@.acks[consumer]
                } else {
                    sequence
                },
            ),
            final(self)@.uploads == (if old(self)@.uploads == u64::MAX {
                0
            } else {
                old(self)@.uploads + 1
            }),
            final(self)@.id == old(self)@.id,
            final(self)@.size == old(self)@.size,
            final(self)@.stride == old(self)@.stride,
            final(self)@.format == old(self)@.format,
            final(self)@.generation == old(self)@.generation,
            final(self)@.sequence == old(self)@.sequence,
            final(self)@.dirty == old(self)@.dirty,
            final(self)@.frame == old(self)@.frame,
    {
        proof {
            lemma_acks_map(self.consumers@);
        }
        let ghost old_v = self.consumers@;
        let n = self.consumers.len();
        let found = self.find_consumer(consumer);
        if let Some(i) = found {
            let prev = self.consumers[i].acked;
            let acked = if prev > sequence {
                prev
            } else {
                sequence
            };
            self.consumers.set(i, ConsumerAck { consumer, acked });
            proof {
                assert(acks_unique(self.consumers@)) by {
                    assert forall|a: int, b: int| 0 <= a < b < self.consumers@.len() implies self.consumers@[a].consumer
                        != self.consumers@[b].consumer by {
                        assert(old_v[a].consumer == self.consumers@[a].consumer);
                        assert(old_v[b].consumer == self.consumers@[b].consumer);
                    }
                }
                lemma_acks_map(self.consumers@);
                assert(old_v[i as int].consumer == consumer);
                assert(acks_map(old_v)[consumer] == prev);
                assert(self@.acks =~= acks_map(old_v).insert(consumer, acked)) by {
                    assert forall|c: u64| #[trigger] self@.acks.contains_key(c) == acks_map(old_v).insert(consumer, acked).contains_key(c) by {
                        if self@.acks.contains_key(c) {
                            let j = choose|j: int| 0 <= j < n && self.consumers@[j].consumer == c;
                            assert(old_v[j].consumer == c);
                        }
                        if acks_map(old_v).contains_key(c) {
                            let j = choose|j: int| 0 <= j < n && old_v[j].consumer == c;
                            assert(self.consumers@[j].consumer == c);
                        }
                    }
                    assert forall|c: u64| #[trigger] self@.acks.contains_key(c) implies self@.acks[c] == acks_map(old_v).insert(consumer, acked)[c] by {
                        let j = choose|j: int| 0 <= j < n && self.consumers@[j].consumer == c;
                        assert(self@.acks[self.consumers@[j].consumer] == self.consumers@[j].acked);
                        if j != i {
                            assert(old_v[j] == self.consumers@[j]);
                            assert(acks_map(old_v)[old_v[j].consumer] == old_v[j].acked);
                        }
                    }
                }
            }
        } else {
            self.consumers.push(ConsumerAck { consumer, acked: sequence });
            proof {
                assert(self.consumers@.drop_last() == old_v);
                assert(acks_unique(self.consumers@)) by {
                    assert forall|a: int, b: int| 0 <= a < b < self.consumers@.len() implies self.consumers@[a].consumer
                        != self.consumers@[b].consumer by {
                        if b == n {
                            assert(old_v[a].consumer != consumer);
                        } else {
                            assert(old_v[a].consumer != old_v[b].consumer);
                        }
                    }
                }
                assert(!acks_map(old_v).contains_key(consumer)) by {
                    if acks_map(old_v).contains_key(consumer) {
                        let j = choose|j: int| 0 <= j < n && old_v[j].consumer == consumer;
                        assert(false);
                    }
                }
            }
        }
        self.uploads = self.uploads.wrapping_add(1);
    }

    /// A single renderer uploaded frame `sequence`; counts as the
    /// acknowledgement of the legacy consumer slot.
    pub fn mark_uploaded(&mut self, sequence: u64)
        requires
            old(self).wf(),
        ensures
            final(self).wf(),
            final(self)@.acks == old(self)@.acks.insert(
                LEGACY_CONSUMER,
                if old(self)@.acks.contains_key(LEGACY_CONSUMER) && old(self)@.acks[LEGACY_CONSUMER]
                    > sequence {
                    old(self)@.acks[LEGACY_CONSUMER]
                } else {
                    sequence
                },
            ),
            final(self)@.uploads == (if old(self)@.uploads == u64::MAX {
                0
            } else {
                old(self)@.uploads + 1
            }),
            final(self)@.id == old(self)@.id,
            final(self)@.size == old(self)@.size,
            final(self)@.stride == old(self)@.stride,
            final(self)@.format == old(self)@.format,
            final(self)@.generation == old(self)@.generation,
            final(self)@.sequence == old(self)@.sequence,
            final(self)@.dirty == old(self)@.dirty,
            final(self)@.frame == old(self)@.frame,
    {
        self.acknowledge(LEGACY_CONSUMER, sequence)
    }

    /// Renderer `consumer` uploaded frame `sequence`.
    pub fn mark_uploaded_for(&mut self, consumer: ExternalTextureConsumerId, sequence: u64)
        requires
            old(self).wf(),
        ensures
            final(self).wf(),
            final(self)@.acks == old(self)@.acks.insert(
                consumer.0,
                if old(self)@.acks.contains_key(consumer.0) && old(self)@.acks[consumer.0] > sequence {
                    old(self)@.acks[consumer.0]
                } else {
                    sequence
                },
            ),
            final(self)@.uploads == (if old(self)@.uploads == u64::MAX {
                0
            } else {
                old(self)@.uploads + 1
            }),
            final(self)@.id == old(self)@.id,
            final(self)@.size == old(self)@.size,
            final(self)@.stride == old(self)@.stride,
            final(self)@.format == old(self)@.format,
            final(self)@.generation == old(self)@.generation,
            final(self)@.sequence == old(self)@.sequence,
            final(self)@.dirty == old(self)@.dirty,
            final(self)@.frame == old(self)@.frame,
    {
        self.acknowledge(consumer.0, sequence)
    }

    /// Forget a renderer that no longer draws this buffer.
    pub fn remove_consumer(&mut self, consumer: ExternalTextureConsumerId)
        requires
            old(self).wf(),
        ensures
            final(self).wf(),
            final(self)@.acks == old(self)@.acks.remove(consumer.0),
            final(self)@.uploads == old(self)@.uploads,
            final(self)@.id == old(self)@.id,
            final(self)@.size == old(self)@.size,
            final(self)@.stride == old(self)@.stride,
            final(self)@.format == old(self)@.format,
            final(self)@.generation == old(self)@.generation,
            final(self)@.sequence == old(self)@.sequence,
            final(self)@.dirty == old(self)@.dirty,
            final(self)@.frame == old(self)@.frame,
    {
        proof {
            lemma_acks_map(self.consumers@);
        }
        let ghost old_v = self.consumers@;
        let n = self.consumers.len();
        let mut kept: Vec<ConsumerAck> = Vec::new();
        let mut i: usize = 0;
        while i < n
            invariant
                n == old_v.len(),
                self.consumers@ == old_v,
                i <= n,
                acks_unique(old_v),
                acks_unique(kept@),
                forall|j: int| 0 <= j < kept@.len() ==> #[trigger] kept@[j].consumer != consumer.0,
                forall|j: int| 0 <= j < kept@.len() ==> exists|k: int| 0 <= k < i && old_v[k] == #[trigger] kept@[j],
                forall|k: int| 0 <= k < i && old_v[k].consumer != consumer.0 ==> exists|j: int|
                    0 <= j < kept@.len() && kept@[j] == #[trigger] old_v[k],
            decreases n - i,
        {
            let e = &self.consumers[i];
            if e.consumer != consumer.0 {
                let ghost before = kept@;
                kept.push(ConsumerAck { consumer: e.consumer, acked: e.acked });
                proof {
                    assert(kept@[before.len() as int] == old_v[i as int]);
                    assert forall|a: int, b: int| 0 <= a < b < kept@.len() implies kept@[a].consumer
                        != kept@[b].consumer by {
                        if b == before.len() {
                            assert(before[a] == kept@[a]);
                            let k = choose|k: int| 0 <= k < i && old_v[k] == #[trigger] before[a];
                            assert(old_v[k].consumer != old_v[i as int].consumer);
                        } else {
                            assert(before[a] == kept@[a]);
                            assert(before[b] == kept@[b]);
                        }
                    }
                    assert forall|j: int| 0 <= j < kept@.len() implies exists|k: int|
                        0 <= k < i + 1 && old_v[k] == #[trigger] kept@[j] by {
                        if j < before.len() {
                            assert(before[j] == kept@[j]);
                            let k = choose|k: int| 0 <= k < i && old_v[k] == #[trigger] before[j];
                        } else {
                            assert(old_v[i as int] == kept@[j]);
                        }
                    }
                    assert forall|k: int| 0 <= k < i + 1 && old_v[k].consumer != consumer.0 implies exists|j: int|
                        0 <= j < kept@.len() && kept@[j] == #[trigger] old_v[k] by {
                        if k < i {
                            let j = choose|j: int| 0 <= j < before.len() && before[j] == #[trigger] old_v[k];
                            assert(kept@[j] == before[j]);
                        } else {
                            assert(kept@[before.len() as int] == old_v[k]);
                        }
                    }
                }
            }
            i = i + 1;
        }
        self.consumers = kept;
        proof {
            lemma_acks_map(self.consumers@);
            let m_old = acks_map(old_v);
            let m_new = self@.acks;
            assert(m_new =~= m_old.remove(consumer.0)) by {
                assert forall|c: u64| #[trigger] m_new.contains_key(c) == m_old.remove(consumer.0).contains_key(c) by {
                    if m_new.contains_key(c) {
                        let j = choose|j: int| 0 <= j < self.consumers@.len() && self.consumers@[j].consumer == c;
                        let k = choose|k: int| 0 <= k < n && old_v[k] == #[trigger] self.consumers@[j];
                        assert(old_v[k].consumer == c);
                    }
                    if m_old.remove(consumer.0).contains_key(c) {
                        let k = choose|k: int| 0 <= k < n && old_v[k].consumer == c;
                        let j = choose|j: int| 0 <= j < self.consumers@.len() && self.consumers@[j] == #[trigger] old_v[k];
                        assert(self.consumers@[j].consumer == c);
                    }
                }
                assert forall|c: u64| #[trigger] m_new.contains_key(c) implies m_new[c] == m_old.remove(consumer.0)[c] by {
                    let j = choose|j: int| 0 <= j < self.consumers@.len() && self.consumers@[j].consumer == c;
                    let k = choose|k: int| 0 <= k < n && old_v[k] == #[trigger] self.consumers@[j];
                    assert(m_new[self.consumers@[j].consumer] == self.consumers@[j].acked);
                    assert(m_old[old_v[k].consumer] == old_v[k].acked);
                }
            }
        }
    }

    /// Forget the frame without dropping the identity: the geometry and the
    /// owed rectangles are cleared, the generation moves on, the frame
    /// counter returns to 0 and every renderer has to register again.
    pub fn release_frame(&mut self)
        requires
            old(self).wf(),
            old(self)@.generation < u64::MAX,
        ensures
            final(self).wf(),
            final(self)@.id == old(self)@.id,
            final(self)@.size == zero_size(),
            final(self)@.stride == 0,
            final(self)@.format is None,
            final(self)@.generation == old(self)@.generation + 1,
            final(self)@.sequence == 0,
            final(self)@.dirty.len() == 0,
            final(self)@.frame is None,
            final(self)@.uploads == old(self)@.uploads,
            final(self)@.acks == Map::<u64, u64>::empty(),
    {
        self.size = zero_size();
        self.stride = 0;
        self.format = None;
        self.dirty = Vec::new();
        self.generation = self.generation + 1;
        self.sequence = 0;
        self.frame = None;
        self.consumers = Vec::new();
        proof {
            assert(self.size == zero_size());
            assert(self@.acks =~= Map::<u64, u64>::empty());
        }
    }
}

/// Copies of the rectangles, in order.
fn copy_bounds(src: &[Bounds]) -> (out: Vec<Bounds>)
    ensures
        out@ == src@,
{
    let mut out: Vec<Bounds> = Vec::new();
    append_bounds(&mut out, src);
    proof {
        assert(out@ == Seq::<Bounds>::empty() + src@);
    }
    out
}

/// Append copies of the rectangles of `src` to `dst`.
fn append_bounds(dst: &mut Vec<Bounds>, src: &[Bounds])
    ensures
        final(dst)@ == old(dst)@ + src@,
{
    let n = src.len();
    let mut i: usize = 0;
    while i < n
        invariant
            n == src@.len(),
            i <= n,
            dst@ == old(dst)@ + src@.take(i as int),
        decreases n - i,
    {
        dst.push(src[i]);
        i = i + 1;
        proof {
            assert(src@.take(i as int) == src@.take(i - 1).push(src@[i - 1]));
        }
    }
    proof {
        assert(src@.take(n as int) == src@);
    }
}

/// A copy of the first `n` bytes.
fn copy_prefix(src: &[u8], n: usize) -> (out: Vec<u8>)
    requires
        n <= src@.len(),
    ensures
        out@ == src@.take(n as int),
{
    let mut out: Vec<u8> = Vec::with_capacity(n);
    let mut i: usize = 0;
    while i < n
        invariant
            n <= src@.len(),
            i <= n,
            out@ == src@.take(i as int),
        decreases n - i,
    {
        out.push(src[i]);
        i = i + 1;
        proof {
            assert(src@.take(i as int) == src@.take(i - 1).push(src@[i - 1]));
        }
    }
    out
}

/// Rectangles owed to a renderer that is behind are never dropped: after a
/// frame that keeps the allocation, the owed list either means a full
/// upload (it is empty) or it holds every rectangle owed before and every
/// rectangle of the new frame.
pub proof fn law_pending_dirt_survives_until_every_renderer_catches_up(
    m: BufferModel,
    dirty: Seq<Bounds>,
)
    requires
        has_unconsumed_spec(m),
    ensures
        ({
            let next = next_dirty(m, false, dirty);
            next.len() == 0 || ((forall|i: int| 0 <= i < m.dirty.len() ==> next.contains(#[trigger] m.dirty[i]))
                && (forall|i: int| 0 <= i < dirty.len() ==> next.contains(#[trigger] dirty[i])))
        }),
{
    let next = next_dirty(m, false, dirty);
    if next.len() != 0 {
        assert(next == m.dirty + dirty);
        assert forall|i: int| 0 <= i < m.dirty.len() implies next.contains(#[trigger] m.dirty[i]) by {
            assert(next[i] == m.dirty[i]);
        }
        assert forall|i: int| 0 <= i < dirty.len() implies next.contains(#[trigger] dirty[i]) by {
            assert(next[m.dirty.len() + i] == dirty[i]);
        }
    }
}

/// A full repaint dominates partial frames in either order: while a
/// renderer is behind, if either the owed list or the new frame's list
/// means the whole frame, so does the result.
pub proof fn law_full_repaint_dominates(m: BufferModel, dirty: Seq<Bounds>)
    requires
        has_unconsumed_spec(m),
        m.dirty.len() == 0 || dirty.len() == 0,
    ensures
        next_dirty(m, false, dirty).len() == 0,
{
}

/// Once every renderer has caught up, a new frame's rectangles replace the
/// owed list (when there are at most [`MAX_DIRTY_RECTS`] of them).
pub proof fn law_caught_up_renderers_get_only_new_dirt(m: BufferModel, dirty: Seq<Bounds>)
    requires
        forall|c: u64| m.acks.contains_key(c) ==> m.acks[c] >= m.sequence,
        dirty.len() <= MAX_DIRTY_RECTS,
    ensures
        next_dirty(m, false, dirty) == dirty,
{
}

/// The owed list never grows beyond [`MAX_DIRTY_RECTS`] rectangles, however
/// many partial frames a renderer misses; a reallocation owes the whole
/// frame.
pub proof fn law_dirty_bookkeeping_is_bounded(m: BufferModel, realloc: bool, dirty: Seq<Bounds>)
    requires
        m.dirty.len() <= MAX_DIRTY_RECTS,
    ensures
        next_dirty(m, realloc, dirty).len() <= MAX_DIRTY_RECTS,
        realloc ==> next_dirty(m, realloc, dirty).len() == 0,
{
}

/// A renderer whose cached key matches the frame on offer reuses its texture
/// and uploads nothing; a new frame at the same allocation is a partial
/// upload; any other change is a recreate.
pub proof fn law_plan_matches_what_changed(k: ExternalTextureCacheKey, generation: u64, size: Size, sequence: u64)
    ensures
        (planned_update(Some(k), generation, size, sequence) == ExternalTextureUpdate::Reuse) <==> (
        k.generation == generation && k.size == size && k.sequence == sequence),
        (planned_update(Some(k), generation, size, sequence) == ExternalTextureUpdate::UploadDirty)
            <==> (k.generation == generation && k.size == size && k.sequence != sequence),
        planned_update(None, generation, size, sequence) == ExternalTextureUpdate::Recreate,
{
}

/// After a frame that reallocates, a texture cached from any earlier frame of
/// the buffer is recreated, whatever its size and sequence.
pub proof fn law_reallocation_forces_recreate(
    k: ExternalTextureCacheKey,
    old_generation: u64,
    new_generation: u64,
    size: Size,
    sequence: u64,
)
    requires
        k.generation <= old_generation,
        new_generation == old_generation + 1,
    ensures
        planned_update(Some(k), new_generation, size, sequence) == ExternalTextureUpdate::Recreate,
{
}

/// Every region a renderer is told to upload has area and lies inside the
/// buffer, whenever the buffer has a non-empty size.
pub proof fn law_upload_regions_stay_inside(dirty: Seq<Bounds>, size: Size)
    requires
        nonneg(size.width.0) > 0,
        nonneg(size.height.0) > 0,
    ensures
        upload_regions(dirty, size).len() >= 1,
        forall|i: int| 0 <= i < upload_regions(dirty, size).len() ==> inside(
            #[trigger] upload_regions(dirty, size)[i],
            size,
        ),
{
    lemma_clip_all_inside(dirty, size);
}

/// What every buffer's consistency gives its users: a frame is published
/// exactly when the counter is positive; without one the buffer holds no
/// geometry, no format and owes nothing; the published frame mirrors the
/// counters, the geometry and the owed rectangles, its pixels fit its
/// geometry, and at most [`MAX_DIRTY_RECTS`] rectangles are owed.
pub proof fn lemma_buffer_consistent(b: &ExternalTextureBuffer)
    requires
        b.wf(),
    ensures
        b@.frame is Some <==> b@.sequence > 0,
        b@.frame is None ==> b@.format is None && b@.size == zero_size_spec() && b@.stride == 0
            && b@.dirty.len() == 0,
        b@.dirty.len() <= MAX_DIRTY_RECTS,
        b@.frame matches Some(f) ==> {
            &&& f.sequence == b@.sequence
            &&& f.generation == b@.generation
            &&& f.size == b@.size
            &&& f.stride == b@.stride
            &&& b@.format == Some(f.format)
            &&& f.dirty == b@.dirty
            &&& geometry_fits(f.size, f.stride, f.bytes.len() as int)
        },
{
}

/// The frame published after a buffer that has no frame (a new one, or one
/// just released) is uploaded whole: it reallocates and owes no rectangles.
pub proof fn law_first_frame_is_uploaded_whole(
    b: &ExternalTextureBuffer,
    size: Size,
    stride: usize,
    format: ExternalTextureFormat,
    dirty: Seq<Bounds>,
)
    requires
        b.wf(),
        b@.sequence == 0,
    ensures
        reallocates(b@, size, stride, format),
        next_dirty(b@, reallocates(b@, size, stride, format), dirty).len() == 0,
{
    lemma_buffer_consistent(b);
}

/// Every frame a buffer publishes owes at most [`MAX_DIRTY_RECTS`]
/// rectangles, whatever calls came before.
pub proof fn law_published_dirt_is_bounded(b: &ExternalTextureBuffer)
    requires
        b.wf(),
    ensures
        b@.frame matches Some(f) ==> f.dirty.len() <= MAX_DIRTY_RECTS,
{
    lemma_buffer_consistent(b);
}

/// Ids handed out by one sequence never repeat and are never 0 (the legacy
/// consumer slot): a sequence only counts up, so an id taken after another
/// one, from a sequence that has since handed out at least that one, is
/// larger.
pub proof fn law_ids_are_unique(earlier_before: u64, earlier: u64, later_before: u64, later: u64)
    requires
        earlier == earlier_before + 1,
        earlier <= later_before,
        later == later_before + 1,
    ensures
        earlier != later,
        earlier < later,
        earlier != LEGACY_CONSUMER,
        later != LEGACY_CONSUMER,
{
}

} // verus!
