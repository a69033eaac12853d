use battleisles::coord::{axial_to_offset, offset_to_axial, AxialCoord, OffsetCoord};

#[test]
fn offset_to_axial_on_even_and_odd_rows() {
    assert_eq!(offset_to_axial(OffsetCoord { row: 0, col: 2 }), AxialCoord { q: 2, r: 0 });
    assert_eq!(offset_to_axial(OffsetCoord { row: 3, col: 2 }), AxialCoord { q: 1, r: 3 });
    assert_eq!(offset_to_axial(OffsetCoord { row: 4, col: 0 }), AxialCoord { q: -2, r: 4 });
    assert_eq!(offset_to_axial(OffsetCoord { row: -1, col: 0 }), AxialCoord { q: 1, r: -1 });
}

#[test]
fn axial_to_offset_inverts() {
    for row in -5..6 {
        for col in -5..6 {
            let c = OffsetCoord { row, col };
            assert_eq!(axial_to_offset(offset_to_axial(c)), c);
        }
    }
    assert_eq!(axial_to_offset(AxialCoord { q: -2, r: 5 }), OffsetCoord { row: 5, col: 0 });
}
