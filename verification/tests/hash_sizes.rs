use rcpp::hash::DigestSize;
use rcpp::hash::DigestSize as DS;

#[test]
fn digest_size_sanity() {
    let ds1 = DS::from_size_in_bits(224);
    assert_eq!(ds1, DS::Bits224);
    assert_eq!(ds1.in_bits(), 224);
    assert_eq!(ds1.in_bytes().unwrap(), 28);

    let ds2 = DS::from_size_in_bits(256);
    assert_eq!(ds2, DS::Bits256);
    assert_eq!(ds2.in_bits(), 256);
    assert_eq!(ds2.in_bytes().unwrap(), 32);
}

#[test]
fn digest_size_from_bytes() {
    assert_eq!(DS::from_size_in_bytes(28), DS::Bits224);
    assert_eq!(DS::from_size_in_bytes(32), DS::Bits256);
    assert_eq!(DS::from_size_in_bytes(48), DS::Bits384);
    assert_eq!(DS::from_size_in_bytes(64), DS::Bits512);
    assert_eq!(DS::Bits384.in_bits(), 384);
    assert_eq!(DS::Bits384.in_bytes().unwrap(), 48);
    assert_eq!(DS::Bits512.in_bits(), 512);
    assert_eq!(DS::Bits512.in_bytes().unwrap(), 64);
}
