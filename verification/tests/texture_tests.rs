use cherrypick::texture::{
    plan_external_texture_update, point, size, Bounds, DevicePixels, ExternalFrameView, ExternalTextureBuffer,
    ExternalTextureCacheKey, ExternalTextureConsumerId, ExternalTextureFormat, ExternalTextureId,
    ExternalTextureUpdate, IdSequence, Size,
};

fn bgra(width: i32, height: i32, fill: u8) -> Vec<u8> {
    vec![fill; (width * height * 4) as usize]
}

fn dims(width: i32, height: i32) -> Size {
    size(DevicePixels(width), DevicePixels(height))
}

fn new_buffer() -> ExternalTextureBuffer {
    let mut ids = IdSequence::new();
    ExternalTextureBuffer::new(ExternalTextureId::next(&mut ids))
}

/// The frame's sequence, or nothing when no frame is held.
fn current_sequence(buffer: &ExternalTextureBuffer) -> Option<u64> {
    buffer.frame().map(|f| f.sequence)
}

fn cache_key(buffer: &ExternalTextureBuffer) -> Option<ExternalTextureCacheKey> {
    buffer.frame().map(|frame| ExternalTextureCacheKey {
        id: buffer.id(),
        generation: frame.generation,
        sequence: frame.sequence,
        size: frame.size,
    })
}

fn plan(buffer: &ExternalTextureBuffer, cached: Option<ExternalTextureCacheKey>) -> Option<ExternalTextureUpdate> {
    buffer.frame().map(|frame| plan_external_texture_update(cached, &frame))
}

fn regions(buffer: &ExternalTextureBuffer) -> Vec<Bounds> {
    buffer.frame().map(|frame| frame.dirty_regions()).unwrap_or_default()
}

fn upload(buffer: &mut ExternalTextureBuffer) {
    let seq = current_sequence(buffer).expect("a frame to upload");
    buffer.mark_uploaded(seq);
}

#[test]
fn a_buffer_with_no_frame_never_calls_the_visitor() {
    let buffer = new_buffer();
    assert!(!buffer.has_frame());
    assert!(buffer.frame().is_none(), "a pane that never painted must draw nothing");
}

#[test]
fn reusing_a_cached_texture_is_not_an_upload() {
    let mut buffer = new_buffer();
    let pixels = bgra(4, 2, 0x11);
    assert!(buffer.submit(dims(4, 2), 16, ExternalTextureFormat::Bgra8, &pixels, &[]));

    assert_eq!(plan(&buffer, None), Some(ExternalTextureUpdate::Recreate));
    let cached = cache_key(&buffer);
    upload(&mut buffer);
    assert_eq!(buffer.upload_count(), 1);

    for _ in 0..30 {
        let p = plan(&buffer, cached).unwrap();
        assert_eq!(p, ExternalTextureUpdate::Reuse);
        if !matches!(p, ExternalTextureUpdate::Reuse) {
            upload(&mut buffer);
        }
    }
    assert_eq!(buffer.upload_count(), 1, "a settled page must stop adding to the upload counter");
}

#[test]
fn dirty_regions_wait_for_every_consumer() {
    let mut ids = IdSequence::new();
    let mut buffer = ExternalTextureBuffer::new(ExternalTextureId::next(&mut ids));
    let pixels = bgra(8, 8, 0x22);
    let first = ExternalTextureConsumerId::next(&mut ids);
    let second = ExternalTextureConsumerId::next(&mut ids);
    let dirty = |x: i32, y: i32| Bounds { origin: point(DevicePixels(x), DevicePixels(y)), size: dims(2, 2) };

    assert!(buffer.submit(dims(8, 8), 32, ExternalTextureFormat::Bgra8, &pixels, &[]));
    let seq = current_sequence(&buffer).unwrap();
    buffer.mark_uploaded_for(first, seq);
    buffer.mark_uploaded_for(second, seq);

    assert!(buffer.submit(dims(8, 8), 32, ExternalTextureFormat::Bgra8, &pixels, &[dirty(0, 0)]));
    assert_eq!(buffer.frame().unwrap().dirty, [dirty(0, 0)]);
    let seq = current_sequence(&buffer).unwrap();
    buffer.mark_uploaded_for(first, seq);

    assert!(buffer.submit(dims(8, 8), 32, ExternalTextureFormat::Bgra8, &pixels, &[dirty(4, 4)]));
    assert_eq!(
        buffer.frame().unwrap().dirty,
        [dirty(0, 0), dirty(4, 4)],
        "a renderer that has not drawn frame 2 still needs its pixels"
    );
    let seq = current_sequence(&buffer).unwrap();
    buffer.mark_uploaded_for(second, seq);
    buffer.mark_uploaded_for(first, seq);

    assert!(buffer.submit(dims(8, 8), 32, ExternalTextureFormat::Bgra8, &pixels, &[dirty(6, 6)]));
    assert_eq!(buffer.frame().unwrap().dirty, [dirty(6, 6)]);
}

#[test]
fn ids_are_unique_per_source() {
    let mut ids = IdSequence::new();
    let a = ExternalTextureBuffer::new(ExternalTextureId::next(&mut ids));
    let b = ExternalTextureBuffer::new(ExternalTextureId::next(&mut ids));
    assert_ne!(a.id(), b.id());
}

#[test]
fn a_submitted_frame_is_visible_to_the_renderer() {
    let mut buffer = new_buffer();
    let pixels = bgra(4, 2, 0x7f);
    assert!(buffer.submit(dims(4, 2), 16, ExternalTextureFormat::Bgra8, &pixels, &[]));
    assert!(buffer.has_frame());

    let frame = buffer.frame().unwrap();
    assert!(frame.is_well_formed());
    assert!(frame.bytes.iter().all(|byte| *byte == 0x7f));
    assert_eq!(
        (frame.size, frame.sequence, frame.generation, frame.format),
        (dims(4, 2), 1, 1, ExternalTextureFormat::Bgra8)
    );
}

#[test]
fn a_short_buffer_is_refused_rather_than_read_out_of_bounds() {
    let mut buffer = new_buffer();
    let too_small = bgra(4, 1, 0);
    assert!(!buffer.submit(dims(4, 2), 16, ExternalTextureFormat::Bgra8, &too_small, &[]));
    assert!(!buffer.has_frame());
}

#[test]
fn a_stride_narrower_than_the_row_is_refused() {
    let mut buffer = new_buffer();
    let pixels = bgra(4, 2, 0);
    assert!(!buffer.submit(dims(4, 2), 8, ExternalTextureFormat::Bgra8, &pixels, &[]));
}

#[test]
fn a_settled_page_uploads_nothing() {
    let mut buffer = new_buffer();
    let pixels = bgra(8, 8, 1);
    buffer.submit(dims(8, 8), 32, ExternalTextureFormat::Bgra8, &pixels, &[]);

    let mut cached: Option<ExternalTextureCacheKey> = None;
    let mut plans = Vec::new();
    for _ in 0..3 {
        let p = plan(&buffer, cached).unwrap();
        plans.push(p);
        if !matches!(p, ExternalTextureUpdate::Reuse) {
            upload(&mut buffer);
            cached = cache_key(&buffer);
        }
    }
    assert_eq!(plans, vec![ExternalTextureUpdate::Recreate, ExternalTextureUpdate::Reuse, ExternalTextureUpdate::Reuse]);
    assert_eq!(buffer.upload_count(), 1);
}

#[test]
fn a_new_frame_at_the_same_size_uploads_only_the_dirty_rects() {
    let mut buffer = new_buffer();
    buffer.submit(dims(8, 8), 32, ExternalTextureFormat::Bgra8, &bgra(8, 8, 1), &[]);
    upload(&mut buffer);
    let cached = cache_key(&buffer);

    let dirty = [Bounds { origin: point(DevicePixels(2), DevicePixels(3)), size: dims(4, 2) }];
    buffer.submit(dims(8, 8), 32, ExternalTextureFormat::Bgra8, &bgra(8, 8, 2), &dirty);

    assert_eq!(plan(&buffer, cached), Some(ExternalTextureUpdate::UploadDirty));
    assert_eq!(regions(&buffer), dirty.to_vec());
}

#[test]
fn a_resize_forces_the_renderer_to_recreate_its_texture() {
    let mut buffer = new_buffer();
    buffer.submit(dims(8, 8), 32, ExternalTextureFormat::Bgra8, &bgra(8, 8, 1), &[]);
    let cached = cache_key(&buffer);

    buffer.submit(dims(16, 8), 64, ExternalTextureFormat::Bgra8, &bgra(16, 8, 1), &[]);
    assert_eq!(buffer.frame().unwrap().generation, 2, "a reallocation bumps the generation");
    assert_eq!(plan(&buffer, cached), Some(ExternalTextureUpdate::Recreate));
}

#[test]
fn dirt_accumulates_while_the_renderer_is_behind() {
    let mut buffer = new_buffer();
    buffer.submit(dims(8, 8), 32, ExternalTextureFormat::Bgra8, &bgra(8, 8, 0), &[]);
    upload(&mut buffer);

    let first = Bounds { origin: point(DevicePixels(0), DevicePixels(0)), size: dims(2, 2) };
    let second = Bounds { origin: point(DevicePixels(4), DevicePixels(4)), size: dims(2, 2) };
    buffer.submit(dims(8, 8), 32, ExternalTextureFormat::Bgra8, &bgra(8, 8, 1), &[first]);
    buffer.submit(dims(8, 8), 32, ExternalTextureFormat::Bgra8, &bgra(8, 8, 2), &[second]);

    assert_eq!(regions(&buffer), vec![first, second]);
}

#[test]
fn an_empty_dirty_list_means_the_whole_frame() {
    let mut buffer = new_buffer();
    buffer.submit(dims(6, 4), 24, ExternalTextureFormat::Bgra8, &bgra(6, 4, 0), &[]);
    assert_eq!(regions(&buffer), vec![Bounds { origin: point(DevicePixels(0), DevicePixels(0)), size: dims(6, 4) }]);
}

#[test]
fn dirty_rects_are_clamped_to_the_buffer() {
    let mut buffer = new_buffer();
    buffer.submit(dims(8, 8), 32, ExternalTextureFormat::Bgra8, &bgra(8, 8, 0), &[]);
    upload(&mut buffer);

    let outside = Bounds { origin: point(DevicePixels(4), DevicePixels(4)), size: dims(64, 64) };
    buffer.submit(dims(8, 8), 32, ExternalTextureFormat::Bgra8, &bgra(8, 8, 1), &[outside]);
    assert_eq!(
        regions(&buffer),
        vec![Bounds { origin: point(DevicePixels(4), DevicePixels(4)), size: dims(4, 4) }],
        "a producer's rect must never index past the texture"
    );
}

#[test]
fn the_first_frame_after_a_reallocation_uploads_everything() {
    let mut buffer = new_buffer();
    let corner = Bounds { origin: point(DevicePixels(0), DevicePixels(0)), size: dims(1, 1) };
    buffer.submit(dims(8, 8), 32, ExternalTextureFormat::Bgra8, &bgra(8, 8, 0), &[corner]);
    assert_eq!(regions(&buffer), vec![Bounds { origin: point(DevicePixels(0), DevicePixels(0)), size: dims(8, 8) }]);
}

#[test]
fn acknowledging_from_inside_the_visitor_does_not_deadlock() {
    let mut buffer = new_buffer();
    buffer.submit(dims(4, 4), 16, ExternalTextureFormat::Bgra8, &bgra(4, 4, 3), &[]);
    upload(&mut buffer);
    assert_eq!(buffer.upload_count(), 1);
}

#[test]
fn an_acknowledged_frame_stops_re_reporting_its_dirty_rects() {
    let mut buffer = new_buffer();
    buffer.submit(dims(8, 8), 32, ExternalTextureFormat::Bgra8, &bgra(8, 8, 0), &[]);
    upload(&mut buffer);

    let first = Bounds { origin: point(DevicePixels(0), DevicePixels(0)), size: dims(2, 2) };
    buffer.submit(dims(8, 8), 32, ExternalTextureFormat::Bgra8, &bgra(8, 8, 1), &[first]);
    assert_eq!(regions(&buffer), vec![first]);
    upload(&mut buffer);

    let second = Bounds { origin: point(DevicePixels(4), DevicePixels(4)), size: dims(2, 2) };
    buffer.submit(dims(8, 8), 32, ExternalTextureFormat::Bgra8, &bgra(8, 8, 2), &[second]);
    assert_eq!(regions(&buffer), vec![second], "the acknowledged rect must not be uploaded a second time");
}

#[test]
fn releasing_a_frame_keeps_the_identity_but_drops_the_pixels() {
    let mut buffer = new_buffer();
    let id = buffer.id();
    buffer.submit(dims(8, 8), 32, ExternalTextureFormat::Bgra8, &bgra(8, 8, 1), &[]);
    buffer.release_frame();
    assert!(!buffer.has_frame());
    assert_eq!(buffer.id(), id);
    assert!(buffer.frame().is_none());
}

#[test]
fn full_repaint_dominates_partial_frames_in_both_orders() {
    for full_first in [true, false] {
        let mut buffer = new_buffer();
        let pixels = bgra(8, 8, 1);
        buffer.submit(dims(8, 8), 32, ExternalTextureFormat::Bgra8, &pixels, &[]);
        upload(&mut buffer);
        let partial = [Bounds { origin: point(DevicePixels(1), DevicePixels(1)), size: dims(2, 2) }];
        let (first, second): (&[Bounds], &[Bounds]) = if full_first { (&[], &partial) } else { (&partial, &[]) };
        buffer.submit(dims(8, 8), 32, ExternalTextureFormat::Bgra8, &pixels, first);
        buffer.submit(dims(8, 8), 32, ExternalTextureFormat::Bgra8, &pixels, second);
        assert_eq!(
            regions(&buffer),
            vec![Bounds { origin: point(DevicePixels(0), DevicePixels(0)), size: dims(8, 8) }]
        );
    }
}

#[test]
fn missed_partial_frames_have_bounded_dirty_bookkeeping() {
    let mut buffer = new_buffer();
    let pixels = bgra(8, 8, 1);
    buffer.submit(dims(8, 8), 32, ExternalTextureFormat::Bgra8, &pixels, &[]);
    upload(&mut buffer);
    let partial = [Bounds { origin: point(DevicePixels(1), DevicePixels(1)), size: dims(2, 2) }];
    for _ in 0..1000 {
        buffer.submit(dims(8, 8), 32, ExternalTextureFormat::Bgra8, &pixels, &partial);
    }
    assert!(buffer.frame().unwrap().dirty.is_empty());
}

#[test]
fn overflowing_frame_geometry_is_rejected() {
    let frame = ExternalFrameView {
        size: dims(1, 2),
        stride: usize::MAX / 2 + 1,
        format: ExternalTextureFormat::Bgra8,
        bytes: &[],
        generation: 1,
        sequence: 1,
        dirty: &[],
    };
    assert!(!frame.is_well_formed());
}

#[test]
fn dirty_rectangles_cannot_overflow_when_clipped() {
    let dirty = [Bounds { origin: point(DevicePixels(i32::MAX - 1), DevicePixels(0)), size: dims(8, 8) }];
    let pixels = bgra(8, 8, 0);
    let frame = ExternalFrameView {
        size: dims(8, 8),
        stride: 32,
        format: ExternalTextureFormat::Bgra8,
        bytes: &pixels,
        generation: 1,
        sequence: 1,
        dirty: &dirty,
    };
    assert_eq!(
        frame.dirty_regions(),
        vec![Bounds { origin: point(DevicePixels(0), DevicePixels(0)), size: dims(8, 8) }]
    );
}

#[test]
fn unusable_dirty_hints_cannot_acknowledge_stale_pixels() {
    let mut buffer = new_buffer();
    let mut texture = bgra(4, 4, 0);
    buffer.submit(dims(4, 4), 16, ExternalTextureFormat::Bgra8, &texture, &[]);
    upload(&mut buffer);
    let next = bgra(4, 4, 17);
    let dirty = [Bounds { origin: point(DevicePixels(100), DevicePixels(100)), size: dims(1, 1) }];
    buffer.submit(dims(4, 4), 16, ExternalTextureFormat::Bgra8, &next, &dirty);
    {
        let frame = buffer.frame().unwrap();
        for region in frame.dirty_regions() {
            let left = region.origin.x.0 as usize * 4;
            let right = left + region.size.width.0 as usize * 4;
            for y in region.origin.y.0..region.origin.y.0 + region.size.height.0 {
                let row = y as usize * frame.stride;
                texture[row + left..row + right].copy_from_slice(&frame.bytes[row + left..row + right]);
            }
        }
    }
    upload(&mut buffer);
    assert_eq!(texture, next, "an acknowledged frame must update the texture");
}

#[test]
fn removing_a_consumer_stops_it_holding_dirt() {
    let mut ids = IdSequence::new();
    let mut buffer = ExternalTextureBuffer::new(ExternalTextureId::next(&mut ids));
    let slow = ExternalTextureConsumerId::next(&mut ids);
    let pixels = bgra(8, 8, 0);
    let rect1 = Bounds { origin: point(DevicePixels(1), DevicePixels(1)), size: dims(1, 1) };
    let rect2 = Bounds { origin: point(DevicePixels(3), DevicePixels(3)), size: dims(1, 1) };
    buffer.submit(dims(8, 8), 32, ExternalTextureFormat::Bgra8, &pixels, &[]);
    let seq = current_sequence(&buffer).unwrap();
    buffer.mark_uploaded_for(slow, seq);
    buffer.mark_uploaded(seq);
    buffer.submit(dims(8, 8), 32, ExternalTextureFormat::Bgra8, &pixels, &[rect1]);
    buffer.remove_consumer(slow);
    upload(&mut buffer);
    assert_eq!(buffer.uploaded_sequence(), buffer.sequence());
    buffer.submit(dims(8, 8), 32, ExternalTextureFormat::Bgra8, &pixels, &[rect2]);
    assert_eq!(regions(&buffer), vec![rect2]);
}

#[test]
fn the_frame_on_offer_carries_the_buffer_counter_and_fits_its_geometry() {
    let mut buffer = new_buffer();
    let pixels = bgra(4, 2, 1);
    assert!(buffer.submit(dims(4, 2), 16, ExternalTextureFormat::Bgra8, &pixels, &[]));
    assert!(buffer.submit(dims(4, 2), 16, ExternalTextureFormat::Bgra8, &pixels, &[]));
    let frame = buffer.frame().unwrap();
    assert_eq!(frame.sequence, buffer.sequence());
    assert_eq!(frame.generation, buffer.generation());
    assert!(frame.is_well_formed());
    buffer.release_frame();
    assert!(buffer.frame().is_none());
    assert_eq!(buffer.size(), dims(0, 0));
}
