use n5::compression::CompressionType;
use n5_wasm::{DatasetAttributes, ElementType, N5Error, Version};

fn attrs(dims: Vec<u64>, block: Vec<u32>, dt: ElementType) -> DatasetAttributes {
    DatasetAttributes::new(dims, block, dt, CompressionType::default())
}

#[test]
fn version_parse_triple() {
    let v = Version::parse("2.1.3").unwrap();
    assert_eq!(v, Version { major: 2, minor: 1, patch: 3 });
}

#[test]
fn version_parse_rejects_garbage() {
    assert_eq!(Version::parse("not a version"), Err(N5Error::Malformed));
    assert_eq!(Version::parse(""), Err(N5Error::Malformed));
}

#[test]
fn version_to_string_renders_decimal() {
    let v = Version { major: 10, minor: 0, patch: 205 };
    assert_eq!(v.to_string(), "10.0.205");
    assert_eq!(Version::supported().to_string(), "2.1.3");
}

#[test]
fn version_compatibility_by_major() {
    let s = Version::supported();
    assert!(s.is_compatible(&Version { major: 1, minor: 9, patch: 9 }));
    assert!(s.is_compatible(&Version { major: 2, minor: 99, patch: 0 }));
    assert!(!s.is_compatible(&Version { major: 3, minor: 0, patch: 0 }));
}

#[test]
fn attributes_getters() {
    let a = attrs(vec![10, 10], vec![5, 5], ElementType::Uint8);
    assert_eq!(a.get_dimensions(), &vec![10u64, 10]);
    assert_eq!(a.get_block_size(), &vec![5u32, 5]);
    assert_eq!(a.get_data_type(), ElementType::Uint8);
    assert_eq!(a.get_data_type().name(), "UINT8");
    assert_eq!(a.get_compression(), "Raw");
    assert_eq!(a.get_ndim(), 2);
}

#[test]
fn attributes_element_counts() {
    let a = attrs(vec![10, 10], vec![5, 5], ElementType::Uint8);
    assert_eq!(a.get_num_elements(), 100);
    assert_eq!(a.get_block_num_elements(), 25);
    let b = attrs(vec![50, 40, 30], vec![11, 10, 10], ElementType::Int64);
    assert_eq!(b.get_num_elements(), 60000);
    assert_eq!(b.get_block_num_elements(), 1100);
}

#[test]
fn attributes_zero_extent_counts_zero() {
    let a = attrs(vec![u64::MAX, u64::MAX, 0], vec![1, 1, 1], ElementType::Uint16);
    assert_eq!(a.get_num_elements(), 0);
}

#[test]
fn attributes_try_new_checks_shape() {
    assert!(DatasetAttributes::try_new(vec![1, 2], vec![1], ElementType::Uint8, CompressionType::default()).is_none());
    assert!(DatasetAttributes::try_new(vec![], vec![], ElementType::Uint8, CompressionType::default()).is_none());
    assert!(DatasetAttributes::try_new(vec![4], vec![2], ElementType::Int32, CompressionType::default()).is_some());
}

#[test]
fn element_type_floats() {
    assert!(ElementType::Float32.is_float());
    assert!(ElementType::Float64.is_float());
    assert!(!ElementType::Int8.is_float());
    assert_eq!(ElementType::from_n5(n5::DataType::INT16), ElementType::Int16);
    assert_eq!(ElementType::Float64.name(), "FLOAT64");
}

#[test]
fn attributes_copy_is_equal() {
    let a = attrs(vec![7, 3], vec![2, 2], ElementType::Int32);
    let b = a.copy();
    assert_eq!(b.get_dimensions(), a.get_dimensions());
    assert_eq!(b.get_block_size(), a.get_block_size());
    assert_eq!(b.get_data_type(), ElementType::Int32);
    assert_eq!(b.get_compression(), "Raw");
}
