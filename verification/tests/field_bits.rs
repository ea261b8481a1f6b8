use ttx_rs::chip::field::{
    left_shift, low_mask, mask_off, read_field, read_field_u32, read_modify, right_shift, write_field,
    write_field_u32, write_field_vec, write_modify, Field,
};

fn bit(bytes: &[u8], p: usize) -> bool {
    p / 8 < bytes.len() && (bytes[p / 8] >> (p % 8)) & 1 == 1
}

#[test]
fn low_masks() {
    assert_eq!(low_mask(0), 0);
    assert_eq!(low_mask(1), 1);
    assert_eq!(low_mask(4), 0x0f);
    assert_eq!(low_mask(8), 0xff);
}

#[test]
fn right_shift_moves_bits_down() {
    let mut v = vec![0x34, 0x12];
    right_shift(&mut v, 4);
    assert_eq!(v, vec![0x23, 0x01]);

    let mut v = vec![0x78, 0x56, 0x34, 0x12];
    right_shift(&mut v, 16);
    assert_eq!(v, vec![0x34, 0x12, 0, 0]);

    let mut v = vec![0x78, 0x56, 0x34, 0x12];
    right_shift(&mut v, 12);
    assert_eq!(v, vec![0x45, 0x23, 0x01, 0]);

    let mut v = vec![0xff, 0xff];
    right_shift(&mut v, 16);
    assert_eq!(v, vec![0, 0]);

    let mut v = vec![0xff, 0xff];
    right_shift(&mut v, 100);
    assert_eq!(v, vec![0, 0]);

    let mut v = vec![0xa5];
    right_shift(&mut v, 0);
    assert_eq!(v, vec![0xa5]);

    let mut v: Vec<u8> = vec![];
    right_shift(&mut v, 3);
    assert!(v.is_empty());
}

#[test]
fn right_shift_by_every_amount() {
    let pattern = vec![0x96, 0x3c, 0xe1, 0x5a, 0x0f];
    for shift in 0..48u32 {
        let mut v = pattern.clone();
        right_shift(&mut v, shift);
        for p in 0..40 {
            assert_eq!(bit(&v, p), bit(&pattern, p + shift as usize), "shift {shift} bit {p}");
        }
    }
}

#[test]
fn mask_off_clears_the_top_of_one_byte() {
    let mut v = vec![0xff, 0xff, 0xff];
    assert_eq!(mask_off(&mut v, 12), 2);
    assert_eq!(v, vec![0xff, 0x0f, 0xff]);

    let mut v = vec![0xff, 0xff];
    assert_eq!(mask_off(&mut v, 8), 2);
    assert_eq!(v, vec![0xff, 0x00]);

    let mut v = vec![0xff, 0xff];
    assert_eq!(mask_off(&mut v, 16), 2);
    assert_eq!(v, vec![0xff, 0xff]);

    let mut v = vec![0xff, 0xff];
    assert_eq!(mask_off(&mut v, 3), 1);
    assert_eq!(v, vec![0x07, 0xff]);
}

#[test]
fn read_modify_takes_a_field_out() {
    // Bits 16 to 19 of a register.
    let mut v = vec![0x78, 0x56, 0x34, 0x12];
    let n = read_modify(&mut v, 16, 19);
    assert_eq!(n, 1);
    assert_eq!(v[0], 0x04);

    let mut v = vec![0x78, 0x56, 0x34, 0x12];
    let n = read_modify(&mut v, 4, 19);
    assert_eq!(n, 3);
    assert_eq!(&v[..n], &[0x67, 0x45, 0x00]);

    let mut v = vec![0xff];
    let n = read_modify(&mut v, 0, 7);
    assert_eq!(n, 1);
    assert_eq!(v, vec![0xff]);
}

#[test]
fn write_modify_puts_a_field_in() {
    let mut v = vec![0x78, 0x56, 0x34, 0x12];
    write_modify(&mut v, &[0x0f], 16, 19);
    assert_eq!(v, vec![0x78, 0x56, 0x3f, 0x12]);

    let mut v = vec![0x00, 0x00, 0x00, 0x00];
    write_modify(&mut v, &[0xab, 0xcd], 4, 19);
    assert_eq!(v, vec![0xb0, 0xda, 0x0c, 0x00]);

    let mut v = vec![0xff, 0xff, 0xff, 0xff];
    write_modify(&mut v, &[0x00], 4, 19);
    assert_eq!(v, vec![0x0f, 0x00, 0xf0, 0xff]);

    // A value that is shorter than the field is filled up with zeros.
    let mut v = vec![0xff, 0xff, 0xff];
    write_modify(&mut v, &[0x01], 0, 23);
    assert_eq!(v, vec![0x01, 0x00, 0x00]);

    let mut v = vec![0xff];
    write_modify(&mut v, &[0x00], 7, 7);
    assert_eq!(v, vec![0x7f]);
}

#[test]
fn write_modify_touches_no_bit_outside_the_field() {
    let value = [0x5a, 0xc3, 0x96, 0x0f, 0x77];
    for background in [0x00u8, 0xff, 0xa5] {
        for lower in 0..32u32 {
            for upper in lower..32u32 {
                let before = vec![background; 4];
                let mut v = before.clone();
                write_modify(&mut v, &value, lower, upper);
                for p in 0..32usize {
                    let expected = if lower as usize <= p && p <= upper as usize {
                        bit(&value, p - lower as usize)
                    } else {
                        bit(&before, p)
                    };
                    assert_eq!(bit(&v, p), expected, "field {lower}..={upper}, bit {p}");
                }
                // And what was written is what is read.
                let n = read_modify(&mut v, lower, upper);
                for p in 0..8 * n {
                    let expected = p <= (upper - lower) as usize && bit(&value, p);
                    assert_eq!(bit(&v, p), expected, "field {lower}..={upper}, bit {p}");
                }
            }
        }
    }
}

#[test]
fn fields_of_whole_bytes() {
    let field = Field { addr: 0x100, size: 2, bits: None };
    assert_eq!(read_field(field, vec![1, 2, 3, 4]), Some(vec![1, 2]));
    assert_eq!(read_field(field, vec![1]), None);
    assert_eq!(write_field(field, vec![], &[9, 8, 7]), Some(vec![9, 8]));
    assert_eq!(write_field(field, vec![], &[9]), None);
    assert_eq!(write_field_vec(field, vec![0, 0], &[5, 6]), Some(vec![5, 6]));
}

#[test]
fn fields_of_bits() {
    let field = Field { addr: 0x80030100, size: 4, bits: Some((16, 19)) };
    assert_eq!(read_field(field, vec![0x78, 0x56, 0x34, 0x12]), Some(vec![0x04, 0x12, 0, 0]));
    assert_eq!(read_field(field, vec![0, 0, 0]), None);
    assert_eq!(
        write_field(field, vec![0x78, 0x56, 0x34, 0x12], &[0x0b, 0, 0, 0]),
        Some(vec![0x78, 0x56, 0x3b, 0x12])
    );
    assert_eq!(write_field(field, vec![0x78, 0x56, 0x34, 0x12], &[0x0b]), None);
}

#[test]
fn fields_as_words() {
    let field = Field { addr: 0, size: 4, bits: Some((8, 23)) };
    assert_eq!(read_field_u32(field, &[0x78, 0x56, 0x34, 0x12]), 0x3456);
    let whole = Field { addr: 0, size: 4, bits: None };
    assert_eq!(read_field_u32(whole, &[0x78, 0x56, 0x34, 0x12]), 0x12345678);
    let short = Field { addr: 0, size: 2, bits: None };
    assert_eq!(read_field_u32(short, &[0x78, 0x56]), 0x5678);
    let wide = Field { addr: 0, size: 8, bits: None };
    assert_eq!(read_field_u32(wide, &[1, 2, 3, 4, 5, 6, 7, 8]), 0);

    assert_eq!(
        write_field_u32(field, vec![0x78, 0x56, 0x34, 0x12], 0xabcd),
        Some(vec![0x78, 0xcd, 0xab, 0x12])
    );
    assert_eq!(write_field_u32(whole, vec![0; 4], 0x01020304), Some(vec![4, 3, 2, 1]));
    assert_eq!(write_field_u32(wide, vec![0; 8], 1), None);
}

#[test]
fn left_shift_moves_bits_up() {
    let mut v = vec![0x34, 0x12];
    left_shift(&mut v, 4);
    assert_eq!(v, vec![0x40, 0x23]);

    let mut v = vec![0x78, 0x56, 0x34, 0x12];
    left_shift(&mut v, 16);
    assert_eq!(v, vec![0, 0, 0x78, 0x56]);

    let mut v = vec![0x78, 0x56, 0x34, 0x12];
    left_shift(&mut v, 12);
    assert_eq!(v, vec![0x00, 0x80, 0x67, 0x45]);

    let mut v = vec![0xff, 0xff];
    left_shift(&mut v, 16);
    assert_eq!(v, vec![0, 0]);

    let pattern = vec![0x96, 0x3c, 0xe1, 0x5a, 0x0f];
    for shift in 0..48u32 {
        let mut v = pattern.clone();
        left_shift(&mut v, shift);
        for p in 0..40usize {
            let expected = p >= shift as usize && bit(&pattern, p - shift as usize);
            assert_eq!(bit(&v, p), expected, "shift {shift} bit {p}");
        }
        // What went up and stayed in comes down again.
        let mut back = v.clone();
        right_shift(&mut back, shift);
        for p in 0..40usize {
            let expected = p + (shift as usize) < 40 && bit(&pattern, p);
            assert_eq!(bit(&back, p), expected);
        }
    }
}

#[test]
fn whether_a_field_lies_in_a_buffer() {
    let bits = |lower, upper| Field { addr: 0, size: 4, bits: Some((lower, upper)) };
    assert!(bits(0, 31).fits_in(4));
    assert!(!bits(0, 32).fits_in(4));
    assert!(bits(31, 31).fits_in(4));
    assert!(!bits(5, 4).fits_in(4));
    assert!(!bits(0, 0).fits_in(0));
    assert!(!bits(0, u32::MAX).fits_in(usize::MAX));
    assert!(Field { addr: 0, size: 4, bits: None }.fits_in(0));
}
