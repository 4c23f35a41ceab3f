use exact_bytes_le::error::DecodeError;
use exact_bytes_le::split::split_fixed;
use exact_bytes_le::split::try_split_fixed;

#[test]
fn split_round_trip() {
    let data = [10u8, 20, 30, 40, 50];
    for m in 0..=data.len() {
        let (prefix, suffix) = split_fixed(&data, m);
        assert_eq!(prefix.len(), m);
        assert_eq!(suffix.len(), data.len() - m);
        let mut joined = prefix.to_vec();
        joined.extend_from_slice(suffix);
        assert_eq!(joined, data.to_vec());
    }
}

#[test]
fn split_at_ends() {
    let data = [1u8, 2, 3];
    let (prefix, suffix) = split_fixed(&data, 0);
    assert_eq!(prefix, &[] as &[u8]);
    assert_eq!(suffix, &data);
    let (prefix, suffix) = split_fixed(&data, 3);
    assert_eq!(prefix, &data);
    assert_eq!(suffix, &[] as &[u8]);
}

#[test]
fn split_is_zero_copy() {
    let data = [7u8, 8, 9, 10];
    let (prefix, suffix) = split_fixed(&data, 1);
    assert!(std::ptr::eq(prefix.as_ptr(), data.as_ptr()));
    assert!(std::ptr::eq(suffix.as_ptr(), &data[1]));
}

#[test]
fn split_generic_elements() {
    let words = ["alpha", "beta", "gamma"];
    let (prefix, suffix) = split_fixed(&words, 2);
    assert_eq!(prefix, &["alpha", "beta"]);
    assert_eq!(suffix, &["gamma"]);
}

#[test]
fn try_split_in_bounds() {
    let data = [1u8, 2, 3, 4];
    let r = try_split_fixed(&data, 3);
    assert_eq!(r, Ok((&data[..3], &data[3..])));
}

#[test]
fn try_split_out_of_bounds() {
    let data = [1u8, 2, 3, 4];
    let r = try_split_fixed(&data, 5);
    assert_eq!(r, Err(DecodeError::InvalidSplit { split_point: 5, len: 4 }));
}
