use std::collections::HashSet;
use videostream::frame::{Frame, MemoryPool, Rect, INVALID_HANDLE};

/// Frames that can be created and used locally without backing memory.
#[test]
fn fourcc() {}

#[test]
fn bad_fourcc() {}

#[test]
fn nodma() {}

#[test]
fn invalid_shm_name() {}

#[test]
fn test_rect() {
    let rect = Rect::new(10, 20, 100, 200);
    assert_eq!(rect.x, 10);
    assert_eq!(rect.y, 20);
    assert_eq!(rect.width, 100);
    assert_eq!(rect.height, 200);

    // Test conversion to a plain tuple and back
    let tuple: (i32, i32, i32, i32) = rect.into();
    assert_eq!(tuple, (10, 20, 100, 200));
    let rect2: Rect = tuple.into();
    assert_eq!(rect, rect2);
}

#[test]
fn test_rect_display() {
    let rect = Rect::new(10, 20, 100, 200);
    let display = rect.display();
    assert_eq!(display, "Rect(10, 20, 100x200)");
}

#[test]
fn test_rect_default() {
    let rect = Rect::default();
    assert_eq!(rect.x, 0);
    assert_eq!(rect.y, 0);
    assert_eq!(rect.width, 0);
    assert_eq!(rect.height, 0);
}

#[test]
fn test_rect_tuple_conversion() {
    // Test From<(i32, i32, i32, i32)> for Rect
    let rect: Rect = (10, 20, 100, 200).into();
    assert_eq!(rect.x, 10);
    assert_eq!(rect.y, 20);
    assert_eq!(rect.width, 100);
    assert_eq!(rect.height, 200);

    // Test From<Rect> for (i32, i32, i32, i32)
    let tuple: (i32, i32, i32, i32) = rect.into();
    assert_eq!(tuple, (10, 20, 100, 200));
}

#[test]
fn test_rect_hash() {
    let rect1 = Rect::new(10, 20, 100, 200);
    let rect2 = Rect::new(10, 20, 100, 200);
    let rect3 = Rect::new(15, 25, 100, 200);

    let mut set = HashSet::new();
    set.insert(rect1);
    assert!(set.contains(&rect2)); // Same values should hash the same
    assert!(!set.contains(&rect3)); // Different values should not match
}

#[test]
fn test_frame_debug() {
    let frame = Frame::new(1920, 1080, 0, "YUYV").unwrap();
    let debug_str = format!("{:?}", frame);

    // Debug output should contain frame info
    assert!(debug_str.contains("Frame"));
    assert!(debug_str.contains("1920"));
    assert!(debug_str.contains("1080"));
}

#[test]
fn test_frame_metadata() {
    let frame = Frame::new(1920, 1080, 1920 * 2, "YUYV").unwrap();
    assert_eq!(frame.width().unwrap(), 1920);
    assert_eq!(frame.height().unwrap(), 1080);
    // YUYV fourcc value
    assert_eq!(frame.fourcc().unwrap(), 0x56595559);
}

#[test]
fn test_frame_different_formats() {
    // Test common video formats - some formats may not be supported on all platforms
    let formats = ["YUYV", "NV12", "RGB3"];
    for fmt in formats {
        let frame = Frame::new(640, 480, 0, fmt);
        assert!(frame.is_ok(), "Failed to create frame with format {}", fmt);
    }
}

#[test]
fn test_frame_invalid_fourcc_length_short() {
    // FourCC must be exactly 4 characters
    let result = Frame::new(640, 480, 0, "RGB");
    assert!(result.is_err());
}

#[test]
fn test_frame_invalid_fourcc_length_long() {
    let result = Frame::new(640, 480, 0, "RGB32");
    assert!(result.is_err());
}

#[test]
fn test_frame_small_dimensions() {
    // Small but valid dimensions
    let frame = Frame::new(1, 1, 0, "YUYV");
    assert!(frame.is_ok());
    let f = frame.unwrap();
    assert_eq!(f.width().unwrap(), 1);
    assert_eq!(f.height().unwrap(), 1);
}

#[test]
fn test_frame_large_dimensions() {
    // 4K resolution
    let frame = Frame::new(3840, 2160, 3840 * 2, "YUYV");
    assert!(frame.is_ok());
    let f = frame.unwrap();
    assert_eq!(f.width().unwrap(), 3840);
    assert_eq!(f.height().unwrap(), 2160);
}

#[test]
fn test_frame_path_before_alloc() {
    let frame = Frame::new(640, 480, 0, "RGB3").unwrap();
    // Path should be None before allocation
    let path = frame.path().unwrap();
    assert!(path.is_none(), "Path should be None before alloc");
}

// --- Allocation, attachment, mapping and locking through a memory pool ---

#[test]
fn frame() {
    let mut pool = MemoryPool::new();
    let mut frame = Frame::new(640, 480, 0, "RGB3").unwrap();

    assert_eq!(frame.width().unwrap(), 640);
    assert_eq!(frame.height().unwrap(), 480);
    assert_eq!(frame.fourcc().unwrap(), 0x33424752);
    assert_eq!(frame.path().unwrap(), None);

    frame.allocate(&mut pool, None).unwrap();

    assert_eq!(frame.size().unwrap(), 640 * 480 * 3);

    // Fill the frame with a pattern and read it back
    let pattern: Vec<u8> = (0..(640 * 480 * 3)).map(|i| (i % 251) as u8).collect();
    frame.write(&mut pool, 0, &pattern).unwrap();
    let mem2 = frame.mmap(&pool).unwrap().to_vec();
    for i in 0..pattern.len() {
        assert_eq!(pattern[i], mem2[i]);
    }

    // A second frame attached to the same handle observes the same bytes
    let mut frame2 = Frame::new(640, 480, 0, "RGB3").unwrap();
    frame2
        .attach(
            frame.handle().unwrap(),
            frame.size().unwrap() as usize,
            0,
            &pool,
        )
        .unwrap();
    let v2 = frame2.mmap(&pool).unwrap().to_vec();
    for i in 0..pattern.len() {
        assert_eq!(pattern[i], v2[i]);
    }

    // Writing through the second frame is visible through the first
    frame2.write(&mut pool, 0, &[0xAB]).unwrap();
    let mem = frame.mmap(&pool).unwrap();
    let v2 = frame2.mmap(&pool).unwrap();
    assert_eq!(mem[0], v2[0]);
    assert_eq!(mem[0], 0xAB);
}

#[test]
fn bad_attach() {
    let pool = MemoryPool::new();
    let mut frame = Frame::new(640, 480, 0, "RGB3").unwrap();

    if frame.attach(-1, 1_usize, 0, &pool).is_ok() {
        panic!("Failed")
    };

    if frame.attach(9000, 1_usize, 0, &pool).is_ok() {
        panic!("Failed")
    };
}

#[test]
fn test_frame_stride() {
    let mut pool = MemoryPool::new();
    let mut frame = Frame::new(640, 480, 1920, "RGB3").unwrap();
    frame.allocate(&mut pool, None).unwrap();

    // Stride should be at least width * bytes_per_pixel
    let stride = frame.stride().unwrap();
    assert!(
        stride >= 640 * 3,
        "Stride {} should be at least {}",
        stride,
        640 * 3
    );
}

#[test]
fn test_frame_stride_derived_when_unset() {
    // A frame constructed with row pitch zero receives the packed row
    // pitch of its format at allocation; an explicit pitch is kept.
    for (fmt, row) in [("RGB3", 640 * 3), ("RGBA", 640 * 4), ("YUYV", 640 * 2), ("NV12", 640), (
        "GREY",
        640,
    )] {
        let mut pool = MemoryPool::new();
        let mut frame = Frame::new(640, 480, 0, fmt).unwrap();
        assert_eq!(frame.stride().unwrap(), 0);
        frame.allocate(&mut pool, None).unwrap();
        assert_eq!(frame.stride().unwrap(), row, "packed pitch for {}", fmt);
    }

    let mut pool = MemoryPool::new();
    let mut explicit = Frame::new(640, 480, 4096, "RGB3").unwrap();
    explicit.allocate(&mut pool, None).unwrap();
    assert_eq!(explicit.stride().unwrap(), 4096);
}

#[test]
fn test_frame_unalloc() {
    let mut pool = MemoryPool::new();
    let mut frame = Frame::new(640, 480, 0, "RGB3").unwrap();
    frame.allocate(&mut pool, None).unwrap();

    // Should have size after alloc
    let size_before = frame.size().unwrap();
    assert!(size_before > 0);

    // Unalloc should succeed
    frame.unalloc().unwrap();

    // After unalloc, the buffer reference is dropped but the frame metadata
    // remains; the handle should no longer be valid
    let handle = frame.handle().unwrap();
    assert_eq!(handle, INVALID_HANDLE, "Handle should be -1 after unalloc");
}

#[test]
fn test_frame_handle_before_alloc() {
    let frame = Frame::new(640, 480, 0, "RGB3").unwrap();
    // Handle should be invalid before allocation
    let handle = frame.handle().unwrap();
    assert_eq!(handle, INVALID_HANDLE, "Handle should be -1 before alloc");
}

#[test]
fn test_frame_handle_after_alloc() {
    let mut pool = MemoryPool::new();
    let mut frame = Frame::new(640, 480, 0, "RGB3").unwrap();
    frame.allocate(&mut pool, None).unwrap();

    // Handle should be a valid descriptor after allocation
    let handle = frame.handle().unwrap();
    assert!(handle >= 0, "Handle should be >= 0 after alloc");
}

#[test]
fn test_frame_timestamps() {
    let mut pool = MemoryPool::new();
    let mut frame = Frame::new(640, 480, 0, "RGB3").unwrap();
    frame.allocate(&mut pool, None).unwrap();

    assert!(frame.serial().is_ok());
    assert!(frame.timestamp().is_ok());
    assert!(frame.duration().is_ok());
    assert!(frame.pts().is_ok());
    assert!(frame.dts().is_ok());
}

#[test]
fn test_frame_expires() {
    let mut pool = MemoryPool::new();
    let mut frame = Frame::new(640, 480, 0, "RGB3").unwrap();
    frame.allocate(&mut pool, None).unwrap();

    assert!(frame.expires().is_ok());
}

#[test]
fn test_frame_trylock_unlock() {
    let mut pool = MemoryPool::new();
    let mut frame = Frame::new(640, 480, 0, "RGB3").unwrap();
    frame.allocate(&mut pool, None).unwrap();

    let lock_result = frame.trylock();
    if lock_result.is_ok() {
        let unlock_result = frame.unlock();
        assert!(
            unlock_result.is_ok(),
            "unlock should succeed after successful lock"
        );
    }
}

#[test]
fn test_frame_mmap_before_alloc() {
    let pool = MemoryPool::new();
    let frame = Frame::new(640, 480, 0, "RGB3").unwrap();
    // mmap should fail before allocation
    let result = frame.mmap(&pool);
    assert!(result.is_err());
}

#[test]
fn test_frame_paddr() {
    let mut pool = MemoryPool::new();
    let mut frame = Frame::new(640, 480, 0, "RGB3").unwrap();
    frame.allocate(&mut pool, None).unwrap();

    // Physical addresses are not exposed by pool segments
    let paddr = frame.paddr();
    assert!(paddr.is_ok());
}

#[test]
fn test_frame_send() {
    // Verify Frame implements Send
    fn assert_send<T: Send>() {}
    assert_send::<Frame>();
}

// --- Lock mutual exclusion: a second trylock fails without blocking ---

#[test]
fn test_trylock_mutual_exclusion() {
    let mut frame = Frame::new(640, 480, 0, "RGB3").unwrap();
    frame.trylock().unwrap();
    // A second trylock without an intervening unlock must fail
    assert!(frame.trylock().is_err());
    frame.unlock().unwrap();
    // After unlock the lock can be taken again
    assert!(frame.trylock().is_ok());
}

#[test]
fn test_unlock_without_lock_fails() {
    let mut frame = Frame::new(640, 480, 0, "RGB3").unwrap();
    assert!(frame.unlock().is_err());
}

// --- Alloc/release round trip: observable handle and size ---

#[test]
fn test_alloc_release_roundtrip() {
    let mut pool = MemoryPool::new();
    let mut frame = Frame::new(320, 240, 0, "GREY").unwrap();
    frame.allocate(&mut pool, None).unwrap();
    assert!(frame.size().unwrap() > 0);
    assert!(frame.handle().unwrap() >= 0);
    frame.unalloc().unwrap();
    assert_eq!(frame.handle().unwrap(), -1);
    assert_eq!(frame.size().unwrap(), 0);
    // Other accessors keep working after release
    assert_eq!(frame.width().unwrap(), 320);
    assert_eq!(frame.fourcc().unwrap(), u32::from_le_bytes(*b"GREY"));
}

// --- Attach/detach memory equivalence over a shared handle ---

#[test]
fn test_attach_memory_equivalence() {
    let mut pool = MemoryPool::new();
    let mut a = Frame::new(16, 16, 0, "GREY").unwrap();
    a.allocate(&mut pool, None).unwrap();

    let pattern: Vec<u8> = (0u32..256).map(|i| (i * 7 % 256) as u8).collect();
    a.write(&mut pool, 0, &pattern).unwrap();

    // A smaller frame attached to the same handle sees the same prefix
    let mut b = Frame::new(8, 16, 0, "GREY").unwrap();
    b.attach(a.handle().unwrap(), 128, 0, &pool).unwrap();
    let bytes_a = a.mmap(&pool).unwrap();
    let bytes_b = b.mmap(&pool).unwrap();
    let smaller = bytes_a.len().min(bytes_b.len());
    assert_eq!(smaller, 128);
    assert_eq!(&bytes_a[..smaller], &bytes_b[..smaller]);
}

#[test]
fn test_alloc_zero_dimension_fails() {
    let mut pool = MemoryPool::new();
    let mut frame = Frame::new(0, 480, 0, "RGB3").unwrap();
    assert!(frame.allocate(&mut pool, None).is_err());
}

#[test]
fn test_alloc_with_path() {
    let mut pool = MemoryPool::new();
    let mut frame = Frame::new(4, 4, 0, "GREY").unwrap();
    frame.allocate(&mut pool, Some("/shm/frame0")).unwrap();
    assert_eq!(frame.path().unwrap().as_deref(), Some("/shm/frame0"));
}

#[test]
fn test_alloc_sizes_per_format() {
    for (fmt, expect) in [
        ("YUYV", 16 * 8 * 2),
        ("NV12", 16 * 8 * 3 / 2),
        ("RGB3", 16 * 8 * 3),
        ("RGBA", 16 * 8 * 4),
        ("GREY", 16 * 8),
    ] {
        let mut pool = MemoryPool::new();
        let mut frame = Frame::new(16, 8, 0, fmt).unwrap();
        frame.allocate(&mut pool, None).unwrap();
        assert_eq!(frame.size().unwrap(), expect, "size mismatch for {}", fmt);
    }
}

#[test]
fn test_copy_to_same_format() {
    let mut pool = MemoryPool::new();
    let mut src = Frame::new(8, 8, 0, "GREY").unwrap();
    src.allocate(&mut pool, None).unwrap();
    src.write(&mut pool, 0, &[9u8; 64]).unwrap();

    let mut dst = Frame::new(8, 8, 0, "GREY").unwrap();
    dst.allocate(&mut pool, None).unwrap();

    let copied = src.copy_to(&dst, None, &mut pool).unwrap();
    assert_eq!(copied, 64);
    assert_eq!(dst.mmap(&pool).unwrap(), &[9u8; 64][..]);
}

#[test]
fn test_copy_to_leaves_other_frames_alone() {
    // A copy writes into the target's region only: a third frame's bytes
    // and the source's own bytes survive unchanged.
    let mut pool = MemoryPool::new();
    let mut src = Frame::new(8, 8, 0, "GREY").unwrap();
    src.allocate(&mut pool, None).unwrap();
    src.write(&mut pool, 0, &[7u8; 64]).unwrap();

    let mut bystander = Frame::new(8, 8, 0, "GREY").unwrap();
    bystander.allocate(&mut pool, None).unwrap();
    bystander.write(&mut pool, 0, &[3u8; 64]).unwrap();

    let mut dst = Frame::new(8, 8, 0, "GREY").unwrap();
    dst.allocate(&mut pool, None).unwrap();

    src.copy_to(&dst, None, &mut pool).unwrap();
    assert_eq!(dst.mmap(&pool).unwrap(), &[7u8; 64][..]);
    assert_eq!(bystander.mmap(&pool).unwrap(), &[3u8; 64][..]);
    assert_eq!(src.mmap(&pool).unwrap(), &[7u8; 64][..]);
}

#[test]
fn test_copy_to_format_mismatch_fails() {
    let mut pool = MemoryPool::new();
    let mut src = Frame::new(8, 8, 0, "GREY").unwrap();
    src.allocate(&mut pool, None).unwrap();
    let mut dst = Frame::new(8, 8, 0, "RGB3").unwrap();
    dst.allocate(&mut pool, None).unwrap();
    assert!(src.copy_to(&dst, None, &mut pool).is_err());
}

#[test]
fn test_sync_requires_memory() {
    let mut pool = MemoryPool::new();
    let mut frame = Frame::new(8, 8, 0, "GREY").unwrap();
    assert!(frame.sync(true, 0).is_err());
    frame.allocate(&mut pool, None).unwrap();
    assert!(frame.sync(true, 0).is_ok());
    assert!(frame.sync(false, 0).is_ok());
    assert!(frame.munmap().is_ok());
}
