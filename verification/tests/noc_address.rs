use ttx_rs::chip::noc::{NocAddress, NocId, Tile};

#[test]
fn packs_coordinates_lowest_byte_first() {
    let a = NocAddress { n0: (1, 2), n1: (3, 4) };
    assert_eq!(u32::from(a), 0x0403_0201);
    assert_eq!(NocAddress::from(0x0403_0201u32), a);
    assert_eq!(a.get(NocId::Noc0), (1, 2));
    assert_eq!(a.get(NocId::Noc1), (3, 4));
}

#[test]
fn aligns_up_to_the_tile_alignment() {
    let t = Tile { addr: NocAddress { n0: (1, 1), n1: (8, 10) }, align_read: 32, align_write: 16 };
    assert_eq!(t.align_read_ptr(3), 32);
    assert_eq!(t.align_write_ptr(3), 16);
    assert_eq!(t.align_rw_ptr(3), 32);
    assert_eq!(t.align_read_ptr(64), 64);
    assert_eq!(t.align_write_ptr(17), 32);
}
