use ttx_rs::bits::{popcount, test_bit};
use ttx_rs::bytes::{read_word, word_to_bytes};
use ttx_rs::chip::dma::{aligned_layout, padded_size, AlignedLayout};

#[test]
fn words_are_kept_lowest_byte_first() {
    assert_eq!(word_to_bytes(0x1234_5678), vec![0x78, 0x56, 0x34, 0x12]);
    assert_eq!(word_to_bytes(0), vec![0, 0, 0, 0]);
    assert_eq!(word_to_bytes(u32::MAX), vec![0xff; 4]);
    assert_eq!(read_word(&[0x78, 0x56, 0x34, 0x12], 0), 0x1234_5678);
    assert_eq!(read_word(&[0, 1, 2, 3, 4, 5], 2), 0x0504_0302);
    for v in [0u32, 1, 0x80, 0xdead_beef, u32::MAX] {
        assert_eq!(read_word(&word_to_bytes(v), 0), v);
    }
}

#[test]
fn bits_are_counted_from_the_lowest() {
    assert!(test_bit(1, 0));
    assert!(!test_bit(1, 1));
    assert!(test_bit(0x8000_0000, 31));
    assert!(!test_bit(0x7fff_ffff, 31));
    assert_eq!(popcount(0), 0);
    assert_eq!(popcount(0b1011_0000), 3);
    assert_eq!(popcount(u32::MAX), 32);
    assert_eq!(popcount(0x8000_0001), 2);
}

#[test]
fn the_aligned_part_of_a_buffer() {
    assert_eq!(padded_size(100, 64), 164);
    assert_eq!(aligned_layout(0x1000, 164, 64), AlignedLayout { offset: 0, size: 164 });
    assert_eq!(aligned_layout(0x1001, 164, 64), AlignedLayout { offset: 63, size: 101 });
    assert_eq!(aligned_layout(0x103f, 164, 64), AlignedLayout { offset: 1, size: 163 });
    assert_eq!(aligned_layout(0x1040, 164, 64), AlignedLayout { offset: 0, size: 164 });
    assert_eq!(aligned_layout(7, 9, 1), AlignedLayout { offset: 0, size: 9 });
    for address in 0..200u64 {
        for align in [1u32, 2, 4, 8, 16, 32] {
            let layout = aligned_layout(address, 40 + align, align);
            assert!((layout.offset as u32) < align);
            assert_eq!((address + layout.offset as u64) % align as u64, 0);
            assert_eq!(layout.size + layout.offset as u32, 40 + align);
        }
    }
}
