use n5::compression::CompressionType;
use n5_wasm::block::check_header_overflow;
use n5_wasm::http::combine_dataset_exists;
use n5_wasm::http::version_from_member;
use n5_wasm::{
    BlockData, DatasetAttributes, ElementType, Fetched, HttpMethod, HttpResponse, N5Error, N5HTTPFetch, Version,
};

fn reader() -> N5HTTPFetch {
    N5HTTPFetch::new("http://example.org/store")
}

fn ok(body: &[u8]) -> Fetched {
    Ok(HttpResponse { status: 200, etag: None, body: body.to_vec() })
}

fn with_etag(status: u16, etag: Option<&str>, body: Vec<u8>) -> Fetched {
    Ok(HttpResponse { status, etag: etag.map(|e| e.to_string()), body })
}

fn status(code: u16) -> Fetched {
    Ok(HttpResponse { status: code, etag: None, body: b"<html>not here</html>".to_vec() })
}

fn ds_attrs() -> DatasetAttributes {
    DatasetAttributes::new(vec![10, 10], vec![5, 5], ElementType::Uint8, CompressionType::default())
}

/// A raw-compressed n5 block of fixed length with the given extent and bytes.
fn block_bytes(size: &[u32], data: &[u8]) -> Vec<u8> {
    let mut b = Vec::new();
    b.extend_from_slice(&0u16.to_be_bytes());
    b.extend_from_slice(&(size.len() as u16).to_be_bytes());
    for s in size {
        b.extend_from_slice(&s.to_be_bytes());
    }
    b.extend_from_slice(data);
    b
}

#[test]
fn block_path_renders_coordinates() {
    let r = reader();
    assert_eq!(r.relative_block_path("ds", &[0, 0]), "ds/0/0");
    assert_eq!(r.relative_block_path("a/b", &[12, 305, 7]), "a/b/12/305/7");
    assert_eq!(r.relative_block_path("ds", &[]), "ds");
    assert_eq!(r.relative_block_path("ds", &[u64::MAX]), "ds/18446744073709551615");
}

#[test]
fn attributes_path_of_root_and_dataset() {
    let r = reader();
    assert_eq!(r.get_dataset_attributes_path(""), "attributes.json");
    assert_eq!(r.get_dataset_attributes_path("ds"), "ds/attributes.json");
}

#[test]
fn requests_name_methods_and_urls() {
    let r = reader();
    let v = r.version_request();
    assert_eq!(v.method, HttpMethod::Get);
    assert_eq!(v.url, "http://example.org/store/attributes.json");
    assert_eq!(r.attributes_request("ds").url, "http://example.org/store/ds/attributes.json");
    assert_eq!(r.exists_request("ds").url, "http://example.org/store/ds");
    let b = r.block_request("ds", &[3, 4]);
    assert_eq!(b.method, HttpMethod::Get);
    assert_eq!(b.url, "http://example.org/store/ds/3/4");
    let h = r.block_etag_request("ds", &[3, 4]);
    assert_eq!(h.method, HttpMethod::Head);
    assert_eq!(h.url, "http://example.org/store/ds/3/4");
    assert_eq!(r.base_path(), "http://example.org/store");
}

#[test]
fn get_version_without_version_field_is_not_found() {
    let r = reader();
    assert_eq!(r.get_version(ok(br#"{"other": 1}"#)), Err(N5Error::NotFound));
}

#[test]
fn get_version_reads_member() {
    let r = reader();
    assert_eq!(r.get_version(ok(br#"{"n5": "2.0.2"}"#)), Ok(Version { major: 2, minor: 0, patch: 2 }));
}

#[test]
fn get_version_failures() {
    let r = reader();
    assert_eq!(r.get_version(ok(b"{not json")), Err(N5Error::Malformed));
    assert_eq!(r.get_version(ok(br#"{"n5": 2}"#)), Err(N5Error::Malformed));
    assert_eq!(r.get_version(ok(br#"{"n5": "two"}"#)), Err(N5Error::Malformed));
    assert_eq!(r.get_version(status(404)), Err(N5Error::NotFound));
    assert_eq!(r.get_version(Err("offline".to_string())), Err(N5Error::Transport("offline".to_string())));
}

#[test]
fn version_member_cases() {
    assert_eq!(version_from_member(None), Err(N5Error::NotFound));
    assert_eq!(version_from_member(Some(None)), Err(N5Error::Malformed));
    assert_eq!(version_from_member(Some(Some("1.2.3".to_string()))), Ok(Version { major: 1, minor: 2, patch: 3 }));
    assert_eq!(version_from_member(Some(Some("1.2".to_string()))), Err(N5Error::Malformed));
}

#[test]
fn open_checks_compatibility() {
    let r = reader();
    let opened = r.clone().open(ok(br#"{"n5": "2.5.0"}"#)).unwrap();
    assert_eq!(opened.base_path(), "http://example.org/store");
    assert!(matches!(r.clone().open(ok(br#"{"n5": "3.0.0"}"#)), Err(N5Error::Incompatible)));
    assert!(matches!(r.open(ok(b"{}")), Err(N5Error::NotFound)));
}

#[test]
fn get_dataset_attributes_parses_document() {
    let r = reader();
    let body = br#"{"dimensions":[10,10],"blockSize":[5,5],"dataType":"uint8","compression":{"type":"raw"}}"#;
    let a = r.get_dataset_attributes(ok(body)).unwrap();
    assert_eq!(a.get_dimensions(), &vec![10u64, 10]);
    assert_eq!(a.get_block_size(), &vec![5u32, 5]);
    assert_eq!(a.get_data_type(), ElementType::Uint8);
    assert_eq!(a.get_compression(), "Raw");
}

#[test]
fn get_dataset_attributes_failures() {
    let r = reader();
    let uneven = br#"{"dimensions":[10,10],"blockSize":[5],"dataType":"uint8","compression":{"type":"raw"}}"#;
    assert!(matches!(r.get_dataset_attributes(ok(uneven)), Err(N5Error::Malformed)));
    assert!(matches!(r.get_dataset_attributes(ok(br#"{"n5":"2.0.0"}"#)), Err(N5Error::Malformed)));
    assert!(matches!(r.get_dataset_attributes(status(404)), Err(N5Error::NotFound)));
    assert!(matches!(r.get_dataset_attributes(Err("reset".to_string())), Err(N5Error::Transport(m)) if m == "reset"));
}

#[test]
fn dataset_exists_missing_is_false() {
    let r = reader();
    assert_eq!(r.dataset_exists(status(404)), Ok(false));
    assert_eq!(r.path_exists(status(404)), Ok(false));
}

#[test]
fn exists_follows_status_class() {
    let r = reader();
    assert_eq!(r.path_exists(status(200)), Ok(true));
    assert_eq!(r.path_exists(status(204)), Ok(true));
    assert_eq!(r.path_exists(status(299)), Ok(true));
    assert_eq!(r.path_exists(status(300)), Ok(false));
    assert_eq!(r.path_exists(status(199)), Ok(false));
    assert_eq!(r.dataset_exists(status(200)), Ok(true));
    assert_eq!(r.path_exists(Err("x".to_string())), Err(N5Error::Transport("x".to_string())));
}

#[test]
fn derived_dataset_exists_combines() {
    assert_eq!(combine_dataset_exists(Ok(true), Ok(ds_attrs())), Ok(true));
    assert_eq!(combine_dataset_exists(Ok(true), Err(N5Error::NotFound)), Ok(false));
    assert_eq!(combine_dataset_exists(Ok(false), Ok(ds_attrs())), Ok(false));
    assert_eq!(combine_dataset_exists(Err(N5Error::Malformed), Ok(ds_attrs())), Err(N5Error::Malformed));
}

#[test]
fn list_is_unsupported() {
    assert_eq!(reader().list("ds"), Err(N5Error::Unsupported));
}

#[test]
fn list_attributes_returns_document() {
    let r = reader();
    let doc = r.list_attributes(ok(br#"{"n5":"2.0.0","extra":[1,2]}"#)).unwrap();
    assert_eq!(doc["extra"][1], 2);
    assert!(matches!(r.list_attributes(ok(b"]")), Err(N5Error::Malformed)));
    assert!(matches!(r.list_attributes(status(403)), Err(N5Error::NotFound)));
}

#[test]
fn block_etag_scenario() {
    let r = reader();
    assert_eq!(r.block_etag(with_etag(200, Some("abc"), vec![])), Ok(Some("abc".to_string())));
    assert_eq!(r.block_etag(with_etag(200, None, vec![])), Ok(None));
    assert_eq!(r.block_etag(with_etag(404, Some("abc"), vec![])), Ok(None));
}

#[test]
fn read_block_with_etag_scenario() {
    let r = reader();
    let data: Vec<u8> = (0..25).collect();
    let got = r
        .read_block_with_etag(&ds_attrs(), &vec![0, 0], ElementType::Uint8, with_etag(200, Some("abc"), block_bytes(&[5, 5], &data)))
        .unwrap()
        .unwrap();
    assert_eq!(got.0.size, vec![5, 5]);
    assert_eq!(got.0.grid_position, vec![0, 0]);
    assert_eq!(got.0.data, BlockData::Uint8(data));
    assert_eq!(got.0.get_num_elements(), 25);
    assert_eq!(got.1, Some("abc".to_string()));
}

#[test]
fn read_block_with_etag_keeps_its_own_etag() {
    let r = reader();
    let first = r
        .read_block_with_etag(&ds_attrs(), &vec![1, 0], ElementType::Uint8, with_etag(200, Some("v1"), block_bytes(&[5, 5], &[1; 25])))
        .unwrap()
        .unwrap();
    let second = r
        .read_block_with_etag(&ds_attrs(), &vec![1, 0], ElementType::Uint8, with_etag(200, Some("v2"), block_bytes(&[5, 5], &[2; 25])))
        .unwrap()
        .unwrap();
    assert_eq!(first.1, Some("v1".to_string()));
    assert_eq!(first.0.data, BlockData::Uint8(vec![1; 25]));
    assert_eq!(second.1, Some("v2".to_string()));
    assert_eq!(second.0.data, BlockData::Uint8(vec![2; 25]));
}

#[test]
fn read_block_missing_is_none() {
    let r = reader();
    assert_eq!(r.read_block(&ds_attrs(), &vec![0, 0], ElementType::Uint8, status(404)), Ok(None));
    assert_eq!(r.read_block_with_etag(&ds_attrs(), &vec![0, 0], ElementType::Uint8, status(404)), Ok(None));
}

#[test]
fn read_block_type_mismatch() {
    let r = reader();
    let bytes = block_bytes(&[5, 5], &[0; 25]);
    assert_eq!(
        r.read_block(&ds_attrs(), &vec![0, 0], ElementType::Uint16, with_etag(200, None, bytes)),
        Err(N5Error::TypeMismatch)
    );
}

#[test]
fn read_block_float_as_bits() {
    let r = reader();
    let a = DatasetAttributes::new(vec![4], vec![2], ElementType::Float32, CompressionType::default());
    let mut payload = Vec::new();
    payload.extend_from_slice(&1.5f32.to_be_bytes());
    payload.extend_from_slice(&(-2.0f32).to_be_bytes());
    let b = r.read_block(&a, &vec![0], ElementType::Float32, ok(&block_bytes(&[2], &payload))).unwrap().unwrap();
    assert_eq!(b.data, BlockData::Float32(vec![1.5f32.to_bits(), (-2.0f32).to_bits()]));
    let a64 = DatasetAttributes::new(vec![1], vec![1], ElementType::Float64, CompressionType::default());
    let b64 = r.read_block(&a64, &vec![0], ElementType::Float64, ok(&block_bytes(&[1], &0.25f64.to_be_bytes()))).unwrap().unwrap();
    match b64.data {
        BlockData::Float64(v) => assert_eq!(f64::from_bits(v[0]), 0.25),
        other => panic!("unexpected {:?}", other),
    }
}

#[test]
fn read_block_more_elements_than_block_is_malformed() {
    let r = reader();
    let bytes = block_bytes(&[6, 5], &[0; 30]);
    assert_eq!(r.read_block(&ds_attrs(), &vec![0, 0], ElementType::Uint8, ok(&bytes)), Err(N5Error::Malformed));
}

#[test]
fn gzip_attributes_name_scheme() {
    let r = reader();
    let body = br#"{"dimensions":[4],"blockSize":[4],"dataType":"uint16","compression":{"type":"gzip","level":-1}}"#;
    let a = r.get_dataset_attributes(ok(body)).unwrap();
    assert_eq!(a.get_compression(), "Gzip");
    let got = r.read_block(&a, &vec![0], ElementType::Uint16, ok(&block_bytes(&[4], &[0, 1, 0, 2, 0, 3, 1, 0])));
    assert_eq!(got, Err(N5Error::Malformed));
}

#[test]
fn read_block_decode_error() {
    let r = reader();
    let got = r.read_block(&ds_attrs(), &vec![0, 0], ElementType::Uint8, ok(&[0, 0]));
    assert!(matches!(got, Err(N5Error::Malformed)));
}

#[test]
fn read_block_wider_elements() {
    let r = reader();
    let a = DatasetAttributes::new(vec![4], vec![2], ElementType::Int16, CompressionType::default());
    let bytes = block_bytes(&[2], &[0xff, 0xfe, 0x00, 0x07]);
    let b = r.read_block(&a, &vec![1], ElementType::Int16, ok(&bytes)).unwrap().unwrap();
    assert_eq!(b.data, BlockData::Int16(vec![-2, 7]));
    assert_eq!(b.grid_position, vec![1]);
}

#[test]
fn block_payload_pairs_bytes_and_etag() {
    let r = reader();
    let got = r.block_payload(with_etag(200, Some("t"), vec![9, 8])).unwrap();
    assert_eq!(got, Some((vec![9, 8], Some("t".to_string()))));
    assert_eq!(r.block_payload(status(500)).unwrap(), None);
}

#[test]
fn read_block_overflowing_header_is_decode_error() {
    let r = reader();
    let mut bytes = block_bytes(&[65536, 65536], &[]);
    bytes.extend_from_slice(&[0; 8]);
    let got = r.read_block(&ds_attrs(), &vec![0, 0], ElementType::Uint8, ok(&bytes));
    assert!(matches!(got, Err(N5Error::Malformed)));
}

#[test]
fn header_overflow_check() {
    assert!(check_header_overflow(&block_bytes(&[65536, 65536], &[])));
    assert!(check_header_overflow(&block_bytes(&[4294967295, 2, 0], &[])));
    assert!(!check_header_overflow(&block_bytes(&[65535, 65537], &[])));
    assert!(!check_header_overflow(&block_bytes(&[5, 5], &[1; 25])));
    assert!(!check_header_overflow(&[0, 0, 0, 2, 0, 1]));
    assert!(!check_header_overflow(&[0, 1]));
    let mut var_len = block_bytes(&[65536, 65536], &[]);
    var_len[1] = 1;
    assert!(!check_header_overflow(&var_len));
}
