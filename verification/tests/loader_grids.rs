use ttx_rs::loader::{blackhole, grayskull, wormhole, NocGrid};

fn is_rising(places: &[(u32, u32)]) -> bool {
    places.windows(2).all(|w| w[0] < w[1])
}

#[test]
fn blackhole_places_in_rising_order() {
    let grid = blackhole::get_grid(0);
    assert_eq!(grid.tensix.len(), 140);
    assert_eq!(grid.tensix[0], (1, 2));
    assert_eq!(grid.tensix[9], (1, 11));
    assert_eq!(grid.tensix[10], (2, 2));
    assert_eq!(grid.tensix[69], (7, 11));
    assert_eq!(grid.tensix[70], (10, 2));
    assert_eq!(grid.tensix[139], (16, 11));
    assert!(is_rising(&grid.tensix));
    assert_eq!(grid.pci, vec![(2, 0), (11, 0)]);
    assert!(grid.dram.is_empty() && grid.arc.is_empty() && grid.eth.is_empty());
    // Harvesting makes no difference.
    assert_eq!(blackhole::get_grid(0xffff_ffff), grid);
    assert_eq!(blackhole::get_tensix_l1_size(), 1536 * 1024);
    assert_eq!((blackhole::GRID_SIZE_X, blackhole::GRID_SIZE_Y), (17, 12));
    assert_eq!((blackhole::NUM_TENSIX_ROWS, blackhole::NUM_TENSIX_COLS), (10, 14));
}

#[test]
fn grayskull_places_in_rising_order() {
    let grid = grayskull::get_grid(0);
    assert_eq!(grid.tensix.len(), 120);
    assert_eq!(grid.tensix[0], (1, 1));
    assert_eq!(grid.tensix[4], (1, 5));
    assert_eq!(grid.tensix[5], (1, 7));
    assert_eq!(grid.tensix[10], (2, 1));
    assert_eq!(grid.tensix[119], (12, 11));
    assert!(is_rising(&grid.tensix));
    assert_eq!(
        grid.dram,
        vec![(1, 6), (4, 6), (7, 6), (10, 6), (1, 0), (4, 0), (7, 0), (10, 0)]
    );
    assert_eq!(grid.pci, vec![(0, 4)]);
    assert_eq!(grid.arc, vec![(0, 2)]);
    assert!(grid.eth.is_empty());
    // Bit 0 takes row 5 out, bit 9 row 11; bits 10 and 31 no row.
    let harvested = grayskull::get_grid(0x8000_0601);
    assert_eq!(harvested.tensix.len(), 96);
    assert!(harvested.tensix.iter().all(|p| p.1 != 5 && p.1 != 11));
    assert!(is_rising(&harvested.tensix));
    assert_eq!(harvested.dram, grid.dram);
    assert_eq!(grayskull::get_tensix_l1_size(), 1024 * 1024);
    assert_eq!((grayskull::NUM_TENSIX_X, grayskull::NUM_TENSIX_Y), (12, 10));
}

#[test]
fn wormhole_places_in_rising_order() {
    let grid = wormhole::get_grid(0);
    assert_eq!(grid.tensix.len(), 80);
    assert_eq!(grid.tensix[0], (1, 1));
    assert_eq!(grid.tensix[10], (2, 1));
    assert_eq!(grid.tensix[39], (4, 11));
    assert_eq!(grid.tensix[40], (6, 1));
    assert_eq!(grid.tensix[79], (9, 11));
    assert!(is_rising(&grid.tensix));
    assert_eq!(grid.dram.len(), 18);
    assert_eq!(grid.dram[0], (0, 11));
    assert_eq!(grid.dram[4], (5, 5));
    assert_eq!(grid.dram[17], (0, 7));
    assert_eq!(grid.pci, vec![(0, 3), (0, 2), (0, 4), (0, 8), (0, 9)]);
    assert_eq!(grid.arc, vec![(0, 10)]);
    assert_eq!(grid.eth.len(), 16);
    assert_eq!(grid.eth[0], (9, 0));
    assert_eq!(grid.eth[7], (4, 0));
    assert_eq!(grid.eth[8], (9, 6));
    // Bit 0 takes row 11 out, bit 1 row 1, bit 9 row 5.
    let harvested = wormhole::get_grid(0b10_0000_0011);
    assert_eq!(harvested.tensix.len(), 56);
    assert!(harvested.tensix.iter().all(|p| ![11, 1, 5].contains(&p.1)));
    assert_eq!(harvested.tensix[0], (1, 2));
    let all = NocGrid { tensix: vec![], ..grid.clone() };
    assert_eq!(wormhole::get_grid(0x3ff), all);
    assert_eq!(wormhole::get_tensix_l1_size(), 1536 * 1024);
    assert_eq!((wormhole::NUM_TENSIX_X, wormhole::NUM_TENSIX_Y), (8, 10));
}
