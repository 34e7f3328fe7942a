use counts_to_csv::csr::CsrMatrix;
use counts_to_csv::element::{ElementType, NumberKind};
use counts_to_csv::error::ConvertError;
use counts_to_csv::options::{Delimiter, Orient};
use counts_to_csv::table::{arrays_to_table, Table};

fn labels(names: &[&str]) -> Vec<String> {
    names.iter().map(|s| s.to_string()).collect()
}

fn sample() -> CsrMatrix<i64> {
    CsrMatrix::try_new(2, 3, vec![0, 1, 3], vec![1, 0, 2], vec![5, 7, 9]).unwrap()
}

fn all_rows<T: counts_to_csv::element::Element>(t: &Table<T>) -> Vec<Vec<T>> {
    (0..t.row_count()).map(|i| t.materialize_row(i)).collect()
}

#[test]
fn stored_orientation_scenario() {
    let t = arrays_to_table(
        Orient::VarNames,
        vec![0, 1, 3],
        vec![1, 0, 2],
        vec![5i64, 7, 9],
        labels(&["r0", "r1"]),
        labels(&["c0", "c1", "c2"]),
    )
    .unwrap();
    assert_eq!(t.header_record(), labels(&["cell", "c0", "c1", "c2"]));
    assert_eq!(t.row_names(), &labels(&["r0", "r1"]));
    assert_eq!(t.materialize_row(0), vec![0, 5, 0]);
    assert_eq!(t.materialize_row(1), vec![7, 0, 9]);
}

#[test]
fn transposed_orientation_scenario() {
    let t = arrays_to_table(
        Orient::ObsNames,
        vec![0, 1, 3],
        vec![1, 0, 2],
        vec![5i64, 7, 9],
        labels(&["r0", "r1"]),
        labels(&["c0", "c1", "c2"]),
    )
    .unwrap();
    assert_eq!(t.header_record(), labels(&["gene", "r0", "r1"]));
    assert_eq!(t.row_names(), &labels(&["c0", "c1", "c2"]));
    assert_eq!(all_rows(&t), vec![vec![0, 7], vec![5, 0], vec![0, 9]]);
}

#[test]
fn short_row_pointers_are_rejected() {
    let r = CsrMatrix::<i64>::try_new(3, 3, vec![0, 2, 5], vec![0, 1, 0, 1, 2], vec![1, 2, 3, 4, 5]);
    assert_eq!(
        r.err(),
        Some(ConvertError::MalformedMatrix {
            row_count: 3,
            col_count: 3,
            pointer_count: 3,
            index_count: 5,
            value_count: 5,
        })
    );
}

#[test]
fn malformed_arrays_are_rejected() {
    // column index out of range
    assert!(CsrMatrix::<i32>::try_new(1, 2, vec![0, 1], vec![2], vec![1]).is_err());
    // unsorted columns within a row
    assert!(CsrMatrix::<i32>::try_new(1, 3, vec![0, 2], vec![2, 1], vec![1, 1]).is_err());
    // duplicate column within a row
    assert!(CsrMatrix::<i32>::try_new(1, 3, vec![0, 2], vec![1, 1], vec![1, 1]).is_err());
    // decreasing row pointers
    assert!(CsrMatrix::<i32>::try_new(2, 3, vec![0, 2, 1], vec![0, 1], vec![1, 1]).is_err());
    // first pointer not zero
    assert!(CsrMatrix::<i32>::try_new(1, 3, vec![1, 2], vec![0], vec![1]).is_err());
    // last pointer not the entry count
    assert!(CsrMatrix::<i32>::try_new(1, 3, vec![0, 1], vec![0, 1], vec![1, 1]).is_err());
    // indices and values of different lengths
    assert!(CsrMatrix::<i32>::try_new(1, 3, vec![0, 2], vec![0, 1], vec![1]).is_err());
    // no row pointers at all
    assert!(CsrMatrix::<i32>::try_new(0, 3, vec![], vec![], vec![]).is_err());
    // an empty matrix is valid
    assert!(CsrMatrix::<i32>::try_new(0, 3, vec![0], vec![], vec![]).is_ok());
}

#[test]
fn malformed_arrays_fail_the_whole_conversion() {
    let r = arrays_to_table(
        Orient::VarNames,
        vec![0, 2, 5],
        vec![0, 1, 0, 1, 2],
        vec![1u32, 2, 3, 4, 5],
        labels(&["a", "b", "c"]),
        labels(&["x", "y", "z"]),
    );
    assert!(matches!(r, Err(ConvertError::MalformedMatrix { pointer_count: 3, .. })));
}

#[test]
fn label_mismatch_is_reported() {
    let r = Table::orient(sample(), labels(&["r0"]), labels(&["c0", "c1", "c2"]), Orient::VarNames);
    assert_eq!(
        r.err(),
        Some(ConvertError::LabelMismatch { row_labels: 1, column_labels: 3, row_count: 2, col_count: 3 })
    );
    let r = Table::orient(sample(), labels(&["r0", "r1"]), labels(&["c0"]), Orient::ObsNames);
    assert!(matches!(r, Err(ConvertError::LabelMismatch { column_labels: 1, .. })));
}

#[test]
fn transpose_rebuckets_entries() {
    let t = sample().transpose();
    assert_eq!(t.row_count(), 3);
    assert_eq!(t.col_count(), 2);
    assert_eq!(t.row_pointers(), &vec![0, 1, 2, 3]);
    assert_eq!(t.column_indices(), &vec![1, 0, 1]);
    assert_eq!(t.values(), &vec![7, 5, 9]);
}

#[test]
fn transpose_twice_restores_matrix() {
    let m = sample();
    let tt = sample().transpose().transpose();
    assert_eq!(tt.row_count(), m.row_count());
    assert_eq!(tt.col_count(), m.col_count());
    assert_eq!(tt.row_pointers(), m.row_pointers());
    assert_eq!(tt.column_indices(), m.column_indices());
    assert_eq!(tt.values(), m.values());
}

#[test]
fn row_sums_match_stored_sums() {
    let m = CsrMatrix::try_new(3, 5, vec![0, 3, 3, 5], vec![0, 2, 4, 1, 3], vec![4i64, -2, 10, 1, 1]).unwrap();
    for r in 0..3 {
        let dense: i64 = m.materialize_row(r, 0).iter().sum();
        let start = m.row_pointers()[r];
        let end = m.row_pointers()[r + 1];
        let stored: i64 = m.values()[start..end].iter().sum();
        assert_eq!(dense, stored);
    }
    assert_eq!(m.materialize_row(0, 0).iter().sum::<i64>(), 12);
}

#[test]
fn rows_have_declared_length() {
    let m = CsrMatrix::try_new(3, 4, vec![0, 0, 4, 4], vec![0, 1, 2, 3], vec![1u8, 2, 3, 4]).unwrap();
    assert_eq!(m.materialize_row(0, 0), vec![0, 0, 0, 0]);
    assert_eq!(m.materialize_row(1, 0), vec![1, 2, 3, 4]);
    assert_eq!(m.materialize_row(2, 0).len(), 4);
}

#[test]
fn cursor_yields_each_position_once() {
    let m = sample();
    let mut c = m.row_cursor(1, 0);
    assert_eq!(c.remaining(), 3);
    assert_eq!(c.next(), Some(7));
    assert_eq!(c.next(), Some(0));
    assert_eq!(c.next(), Some(9));
    assert_eq!(c.remaining(), 0);
    assert_eq!(c.next(), None);
    assert_eq!(c.next(), None);
}

#[test]
fn float_elements_fill_zero() {
    let t = arrays_to_table(
        Orient::VarNames,
        vec![0, 1],
        vec![1],
        vec![2.5f64],
        labels(&["r0"]),
        labels(&["c0", "c1"]),
    )
    .unwrap();
    assert_eq!(t.materialize_row(0), vec![0.0, 2.5]);
}

#[test]
fn orientations_swap_labels() {
    let obs = labels(&["r0", "r1"]);
    let var = labels(&["c0", "c1", "c2"]);
    let a = Table::orient(sample(), obs.clone(), var.clone(), Orient::VarNames).unwrap();
    let b = Table::orient(sample(), obs, var, Orient::ObsNames).unwrap();
    assert_eq!(a.header(), b.row_names());
    assert_eq!(a.row_names(), b.header());
    assert_eq!(a.first_column(), "cell");
    assert_eq!(b.first_column(), "gene");
}

#[test]
fn unsupported_type_tag_lists_alternatives() {
    match ElementType::from_tag("complex64") {
        Err(ConvertError::UnsupportedType { tag, supported }) => {
            assert_eq!(tag, "complex64");
            assert_eq!(
                supported,
                labels(&[
                    "int8", "int16", "int32", "int64", "uint8", "uint16", "uint32", "uint64", "float32",
                    "float64"
                ])
            );
        }
        other => panic!("unexpected result {:?}", other),
    }
}

#[test]
fn supported_type_tags_parse() {
    assert_eq!(ElementType::from_tag("int8"), Ok(ElementType::Int8));
    assert_eq!(ElementType::from_tag("uint32"), Ok(ElementType::Uint32));
    assert_eq!(ElementType::from_tag("float64"), Ok(ElementType::Float64));
    for tag in ElementType::supported_tags() {
        let e = ElementType::from_tag(&tag).unwrap();
        assert_eq!(e.tag(), tag);
    }
    assert!(ElementType::from_tag("Int8").is_err());
    assert!(ElementType::from_tag("").is_err());
}

#[test]
fn number_layouts_map_to_types() {
    assert_eq!(ElementType::from_layout(NumberKind::Signed, 1), Some(ElementType::Int8));
    assert_eq!(ElementType::from_layout(NumberKind::Unsigned, 8), Some(ElementType::Uint64));
    assert_eq!(ElementType::from_layout(NumberKind::Float, 4), Some(ElementType::Float32));
    assert_eq!(ElementType::from_layout(NumberKind::Float, 2), None);
    assert_eq!(ElementType::from_layout(NumberKind::Signed, 16), None);
}

#[test]
fn option_names_parse() {
    assert_eq!(Orient::from_name("var-names"), Some(Orient::VarNames));
    assert_eq!(Orient::from_name("obs-names"), Some(Orient::ObsNames));
    assert_eq!(Orient::from_name("columns"), None);
    assert_eq!(Delimiter::from_name("comma").map(|d| d.byte()), Some(b','));
    assert_eq!(Delimiter::from_name("tab").map(|d| d.byte()), Some(b'\t'));
    assert_eq!(Delimiter::from_name("colon").map(|d| d.byte()), Some(b':'));
    assert_eq!(Delimiter::from_name("pipe").map(|d| d.byte()), Some(b'|'));
    assert_eq!(Delimiter::from_name("semicolon").map(|d| d.byte()), Some(b';'));
    assert_eq!(Delimiter::from_name("space"), None);
}

#[test]
fn cursor_stops_at_row_length() {
    let columns: Vec<usize> = vec![3];
    let values: Vec<i32> = vec![1];
    let mut c = counts_to_csv::row::RowCursor::new(&columns, &values, 0, 1, 2, 0);
    assert_eq!(c.remaining(), 2);
    assert_eq!(c.next(), Some(0));
    assert_eq!(c.next(), Some(0));
    assert_eq!(c.next(), None);
}

#[test]
fn unbounded_column_count_is_rejected() {
    let r = CsrMatrix::<i32>::try_new(0, usize::MAX, vec![0], vec![], vec![]);
    assert!(matches!(r, Err(ConvertError::MalformedMatrix { col_count: usize::MAX, .. })));
    assert!(CsrMatrix::<i32>::try_new(0, 7, vec![0], vec![], vec![]).is_ok());
}
