use e2ee::aws_lc::AwsLcRs;
use e2ee::aws_lc::DigestFunction;
use e2ee::aws_lc::HkdfFunction;
use e2ee::digest;
use e2ee::digest::sha256;
use e2ee::digest::Context;
use e2ee::hkdf;
use e2ee::hkdf::Expander;
use e2ee::hkdf::Hkdf;
use e2ee::provider::Provider;
use e2ee::Error;

#[test]
fn test() -> Result<(), Error> {
    let provider = AwsLcRs;

    struct TestCase {
        ikm: &'static str,
        salt: &'static str,
        info: &'static str,
        len: usize,
        output: &'static str,
    }

    let test_cases = [
        TestCase {
            ikm: "0b0b0b0b0b0b0b0b0b0b0b0b0b0b0b0b0b0b0b0b0b0b",
            salt: "000102030405060708090a0b0c",
            info: "f0f1f2f3f4f5f6f7f8f9",
            len: 42,
            output: "3cb25f25faacd57a90434f64d0362f2a2d2d0a90cf1a5a4c5db02d56ecc4c5bf34007208d5b887185865",
        },
        TestCase {
            ikm: "000102030405060708090a0b0c0d0e0f101112131415161718191a1b1c1d1e1f202122232425262728292a2b2c2d2e2f303132333435363738393a3b3c3d3e3f404142434445464748494a4b4c4d4e4f",
            salt: "606162636465666768696a6b6c6d6e6f707172737475767778797a7b7c7d7e7f808182838485868788898a8b8c8d8e8f909192939495969798999a9b9c9d9e9fa0a1a2a3a4a5a6a7a8a9aaabacadaeaf",
            info: "b0b1b2b3b4b5b6b7b8b9babbbcbdbebfc0c1c2c3c4c5c6c7c8c9cacbcccdcecfd0d1d2d3d4d5d6d7d8d9dadbdcdddedfe0e1e2e3e4e5e6e7e8e9eaebecedeeeff0f1f2f3f4f5f6f7f8f9fafbfcfdfeff",
            len: 82,
            output: "b11e398dc80327a1c8e7f78c596a49344f012eda2d4efad8a050cc4c19afa97c59045a99cac7827271cb41c65e590e09da3275600c2f09b8367793a9aca3db71cc30c58179ec3e87c14c01d5c1f3434f1d87",
        },
        TestCase {
            ikm: "0b0b0b0b0b0b0b0b0b0b0b0b0b0b0b0b0b0b0b0b0b0b",
            salt: "",
            info: "",
            len: 42,
            output: "8da4e775a563c18f715f802a063c5a31b8a11f5c5ee1879ec3454e5f3c738d2d9d201395faa4b61a96c8",
        },
    ];

    for test_case in test_cases {
        let function: HkdfFunction = provider.get(hkdf::Algorithm::Sha256).unwrap();
        let expander = function.extract(
            Some(&hex::decode(test_case.salt).unwrap()),
            &hex::decode(test_case.ikm).unwrap(),
        );

        let okm = expander.expand(&[&hex::decode(test_case.info).unwrap()], test_case.len)?;

        assert_eq!(okm.as_ref(), hex::decode(test_case.output).unwrap());
    }

    Ok(())
}

#[test]
fn test_sha256() {
    assert_eq!(
        sha256(&[65, 66, 67]),
        b"\xb5\xd4\x04\x5c\x3f\x46\x6f\xa9\x1f\xe2\xcc\x6a\xbe\x79\x23\x2a\x1a\x57\xcd\xf1\x04\xf7\xa2\x6e\x71\x6e\x0a\x1e\x27\x89\xdf\x78"
    );
}

#[test]
fn hkdf_splits_info_anywhere() {
    let whole = hkdf::derive(hkdf::Algorithm::Sha256, b"salt", b"secret", b"ABCD", 32).unwrap();
    let prk = hkdf::Prk::new(hkdf::Algorithm::Sha256, b"salt", b"secret");
    let parts = prk.expand(&[b"AB", b"CD"], 32).unwrap();
    assert_eq!(parts.as_ref(), whole.as_slice());
}

#[test]
fn hkdf_rejects_an_output_that_is_too_long() {
    assert!(hkdf::derive(hkdf::Algorithm::Sha256, b"s", b"k", b"i", 255 * 32).is_ok());
    assert_eq!(
        hkdf::derive(hkdf::Algorithm::Sha256, b"s", b"k", b"i", 255 * 32 + 1),
        Err(Error::Unspecified)
    );
    assert_eq!(
        hkdf::derive(hkdf::Algorithm::Sha512, b"s", b"k", b"i", 255 * 64 + 1),
        Err(Error::Unspecified)
    );
}

#[test]
fn incremental_hash_is_the_hash_of_the_whole() {
    let function: DigestFunction = AwsLcRs.get(digest::Algorithm::Sha256).unwrap();
    let mut context = e2ee::digest::Hash::start(&function);
    context.update(&[65]);
    context.update(&[66, 67]);
    let digest = context.finish();
    assert_eq!(digest.as_ref(), sha256(&[65, 66, 67]).as_slice());
    assert_eq!(e2ee::digest::Hash::hash(&function, &[65, 66, 67]).as_ref(), digest.as_ref());
    assert!(Provider::<digest::Algorithm, DigestFunction>::get(&AwsLcRs, digest::Algorithm::Sha3_224).is_none());
}

#[test]
fn digest_lengths_are_the_output_lengths() {
    let all = [
        digest::Algorithm::Sha224,
        digest::Algorithm::Sha256,
        digest::Algorithm::Sha384,
        digest::Algorithm::Sha512,
        digest::Algorithm::Sha3_256,
        digest::Algorithm::Sha3_384,
        digest::Algorithm::Sha3_512,
    ];
    for algorithm in all {
        let function: DigestFunction = AwsLcRs.get(algorithm).unwrap();
        assert_eq!(
            e2ee::digest::Hash::hash(&function, b"abc").as_ref().len(),
            algorithm.output_len()
        );
    }
    assert_eq!(digest::Algorithm::Sha224.output_len(), 28);
    assert_eq!(digest::Algorithm::Sha3_224.output_len(), 28);
    assert_eq!(digest::Algorithm::Sha256.output_len(), 32);
    assert_eq!(digest::Algorithm::Sha384.output_len(), 48);
    assert_eq!(digest::Algorithm::Sha512.output_len(), 64);
}

#[test]
fn the_provider_lists_what_it_supports() {
    let hashes: Vec<digest::Algorithm> = AwsLcRs.supported_algorithms();
    assert_eq!(
        hashes,
        vec![
            digest::Algorithm::Sha224,
            digest::Algorithm::Sha256,
            digest::Algorithm::Sha384,
            digest::Algorithm::Sha512,
            digest::Algorithm::Sha3_256,
            digest::Algorithm::Sha3_384,
            digest::Algorithm::Sha3_512,
        ]
    );
    let hkdfs: Vec<hkdf::Algorithm> = AwsLcRs.supported_algorithms();
    assert_eq!(
        hkdfs,
        vec![hkdf::Algorithm::Sha256, hkdf::Algorithm::Sha384, hkdf::Algorithm::Sha512]
    );
    assert!(AwsLcRs.is_algorithm_supported(hkdf::Algorithm::Sha384));
    assert!(AwsLcRs.is_algorithm_supported(digest::Algorithm::Sha3_384));
    assert!(!AwsLcRs.is_algorithm_supported(digest::Algorithm::Sha3_224));
    assert!(AwsLcRs.is_curve_supported(e2ee::ec::agreement::Algorithm::EcdhP521));
    assert!(!AwsLcRs.is_curve_supported(e2ee::ec::agreement::Algorithm::X25519));
    assert!(!AwsLcRs.is_curve_supported(e2ee::ec::agreement::Algorithm::X448));
}

#[test]
fn no_salt_is_the_salt_of_zero_bytes() {
    let function: HkdfFunction = AwsLcRs.get(hkdf::Algorithm::Sha256).unwrap();
    let expected = hex::decode(
        "8da4e775a563c18f715f802a063c5a31b8a11f5c5ee1879ec3454e5f3c738d2d9d201395faa4b61a96c8",
    )
    .unwrap();
    let none = function.extract(None, &[0x0b; 22]).expand(&[], 42).unwrap();
    assert_eq!(none.as_ref(), expected.as_slice());
    let zeros = function.extract(Some(&[0u8; 32]), &[0x0b; 22]).expand(&[], 42).unwrap();
    assert_eq!(zeros.as_ref(), expected.as_slice());
    for (algorithm, hash_len) in [
        (hkdf::Algorithm::Sha256, 32usize),
        (hkdf::Algorithm::Sha384, 48),
        (hkdf::Algorithm::Sha512, 64),
    ] {
        let function: HkdfFunction = AwsLcRs.get(algorithm).unwrap();
        let zeros = vec![0u8; hash_len];
        let with_none = function.extract(None, b"secret").expand(&[b"info"], 80).unwrap();
        let with_zeros = function.extract(Some(&zeros), b"secret").expand(&[b"info"], 80).unwrap();
        assert_eq!(with_none.as_ref(), with_zeros.as_ref());
        assert_eq!(
            function.extract(None, b"secret").expand(&[], 8161).is_err(),
            algorithm == hkdf::Algorithm::Sha256
        );
    }
}
