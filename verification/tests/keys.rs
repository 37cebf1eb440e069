use aws_lc_rs::encoding::AsDer;
use aws_lc_rs::encoding::EcPrivateKeyRfc5915Der;
use e2ee::aws_lc::default_provider;
use e2ee::aws_lc::AwsLcRs;
use e2ee::aws_lc::EcdhPrivateKey;
use e2ee::aws_lc::EphemeralKey;
use e2ee::aws_lc::EcdhPublicKey;
use e2ee::aws_lc::X25519PrivateKey;
use e2ee::aws_lc::X25519PublicKey;
use e2ee::digest;
use e2ee::doubleratchet::MessageKey;
use e2ee::doubleratchet::Suite;
use e2ee::ec::agreement;
use e2ee::ec::agreement::EphemeralPrivateKey;
use e2ee::ec::agreement::PrivateKey;
use e2ee::ec::agreement::PublicKey;
use e2ee::ec::encoding::PrivateKeyBin;
use e2ee::ec::encoding::PrivateKeyDer;
use e2ee::ec::encoding::PublicKeyBin;
use e2ee::ec::encoding::PublicKeyDer;
use e2ee::ec::signature;
use e2ee::ec::signature::PrivateKeySerializer;
use e2ee::ec::signature::PublicKeySerializer;
use e2ee::ec::signature::SigningKey;
use e2ee::ec::signature::VerifyingKey;
use e2ee::ec::Curve;
use e2ee::ec::KeyProvider;
use e2ee::hkdf;
use e2ee::x3dh::Config;
use e2ee::x3dh::IdentityKeyPair;
use e2ee::x3dh::Negotiated;
use e2ee::Error;

const SEED: &str = "9d61b19deffd5a60ba844af492ec2cc44449c5697b326919703bac031cae7f60";
const PUBLIC: &str = "d75a980182b10ab7d54bfed3c964073a0ee172f3daa62325af021a68f707511a";
const SIGNATURE: &str = "e5564300c360ac729086e2cc806e828a84877f1eb8e5d974d873e065224901555fb8821590a33bacc61e39701cf9b46bd25bf5f0595bbe24655141438e7a100b";

#[test]
fn an_ed25519_seed_signs_as_the_standard_says() {
    let seed = PrivateKeyBin::EdEcSeed(hex::decode(SEED).unwrap());
    let key = AwsLcRs::load_signing_key_bin(signature::Algorithm::Ed25519, &seed).unwrap();
    assert_eq!(key.algorithm(), signature::Algorithm::Ed25519);
    assert_eq!(key.compute_public_key().unwrap(), hex::decode(PUBLIC).unwrap());
    assert_eq!(key.sign(b"").unwrap(), hex::decode(SIGNATURE).unwrap());
    let public = PublicKeyBin::Uncompreessed(hex::decode(PUBLIC).unwrap());
    let verifying =
        AwsLcRs::load_verifying_key_bin(signature::Algorithm::Ed25519, &public).unwrap();
    assert!(verifying.verify(b"", &hex::decode(SIGNATURE).unwrap()));
    assert!(!verifying.verify(b"x", &hex::decode(SIGNATURE).unwrap()));
    assert!(!verifying.verify(b"", &[0; 64]));
    assert_eq!(verifying.algorithm(), signature::Algorithm::Ed25519);
}

#[test]
fn signing_keys_are_loaded_by_their_encoding() {
    let ed25519 = signature::generate_signing_key(signature::Algorithm::Ed25519).unwrap();
    let loaded = AwsLcRs::load_signing_key_der(
        signature::Algorithm::Ed25519,
        &PrivateKeyDer::Pkcs8V1Key(ed25519.clone()),
    )
    .unwrap();
    let signed = loaded.sign(b"message").unwrap();
    let public = loaded.compute_public_key().unwrap();
    assert!(signature::verify(signature::Algorithm::Ed25519, &public, b"message", &signed));
    assert_eq!(
        AwsLcRs::load_signing_key_der(
            signature::Algorithm::Ed25519,
            &PrivateKeyDer::EcPrivateKey(ed25519.clone())
        )
        .err(),
        Some(Error::UnsupportedEncoding)
    );
    assert_eq!(
        AwsLcRs::load_signing_key_der(
            signature::Algorithm::Ed25519,
            &PrivateKeyDer::Pkcs8V2Key(ed25519.clone())
        )
        .err(),
        Some(Error::UnsupportedEncoding)
    );
    assert_eq!(
        AwsLcRs::load_signing_key_der(
            signature::Algorithm::Ed448,
            &PrivateKeyDer::Pkcs8V1Key(ed25519.clone())
        )
        .err(),
        Some(Error::UnsupportedSignatureAlgorithm)
    );
    assert_eq!(
        AwsLcRs::load_signing_key_der(
            signature::Algorithm::Ed25519,
            &PrivateKeyDer::Pkcs8V1Key(vec![1, 2, 3])
        )
        .err(),
        Some(Error::KeyRejected)
    );
    assert_eq!(
        AwsLcRs::load_signing_key_bin(
            signature::Algorithm::EcdsaP256Sha256Asn1,
            &PrivateKeyBin::Ec(vec![1; 32])
        )
        .err(),
        Some(Error::UnsupportedEncoding)
    );
    assert_eq!(
        AwsLcRs::load_signing_key_bin(signature::Algorithm::Ed25519, &PrivateKeyBin::Ec(vec![1; 32]))
            .err(),
        Some(Error::UnsupportedEncoding)
    );
    assert_eq!(
        AwsLcRs::load_signing_key_bin(
            signature::Algorithm::Ed25519,
            &PrivateKeyBin::EdEcSeed(vec![1; 3])
        )
        .err(),
        Some(Error::KeyRejected)
    );
}

#[test]
fn an_ecdsa_key_is_loaded_from_its_curve_structure() {
    let algorithm = signature::Algorithm::EcdsaP384Sha384Fixed;
    let pair = aws_lc_rs::signature::EcdsaKeyPair::generate(
        &aws_lc_rs::signature::ECDSA_P384_SHA384_FIXED_SIGNING,
    )
    .unwrap();
    let der: EcPrivateKeyRfc5915Der = pair.private_key().as_der().unwrap();
    let expected_public = aws_lc_rs::signature::KeyPair::public_key(&pair).as_ref().to_vec();
    let loaded =
        AwsLcRs::load_signing_key_der(algorithm, &PrivateKeyDer::EcPrivateKey(der.as_ref().to_vec()))
            .unwrap();
    assert_eq!(loaded.algorithm(), algorithm);
    assert_eq!(loaded.compute_public_key().unwrap(), expected_public);
    let signed = loaded.sign(b"message").unwrap();
    assert_eq!(signed.len(), 96);
    let verifying =
        AwsLcRs::load_verifying_key_der(algorithm, &PublicKeyDer::EcPublicKey(expected_public))
            .unwrap();
    assert!(verifying.verify(b"message", &signed));
    assert!(!verifying.verify(b"massage", &signed));
    assert_eq!(
        AwsLcRs::load_signing_key_der(algorithm, &PrivateKeyDer::EcPrivateKey(vec![0x30, 0x00]))
            .err(),
        Some(Error::KeyRejected)
    );
}

#[test]
fn verifying_keys_are_checked_when_they_are_loaded() {
    assert_eq!(
        AwsLcRs::load_verifying_key_bin(
            signature::Algorithm::Ed25519,
            &PublicKeyBin::Uncompreessed(vec![1; 5])
        )
        .err(),
        Some(Error::KeyRejected)
    );
    assert_eq!(
        AwsLcRs::load_verifying_key_bin(
            signature::Algorithm::EcdsaP256Sha256Asn1,
            &PublicKeyBin::Uncompreessed(vec![4; 65])
        )
        .err(),
        Some(Error::KeyRejected)
    );
    assert_eq!(
        AwsLcRs::load_verifying_key_der(signature::Algorithm::Ed448, &PublicKeyDer::X509Key(vec![]))
            .err(),
        Some(Error::UnsupportedSignatureAlgorithm)
    );
}

#[test]
fn agreement_keys_are_loaded_and_agree() {
    for algorithm in [
        agreement::Algorithm::X25519,
        agreement::Algorithm::EcdhP256,
        agreement::Algorithm::EcdhP384,
        agreement::Algorithm::EcdhP521,
    ] {
        let ours = agreement::generate_private_key(algorithm).unwrap();
        let theirs = agreement::generate_private_key(algorithm).unwrap();
        let bin = |key: &Vec<u8>| {
            if algorithm == agreement::Algorithm::X25519 {
                PrivateKeyBin::EdEcSeed(key.clone())
            } else {
                PrivateKeyBin::Ec(key.clone())
            }
        };
        let ours = AwsLcRs::load_private_key_bin(algorithm, &bin(&ours)).unwrap();
        let theirs = AwsLcRs::load_private_key_bin(algorithm, &bin(&theirs)).unwrap();
        assert_eq!(ours.algorithm(), algorithm);
        let our_public = AwsLcRs::load_public_key_bin(
            algorithm,
            &PublicKeyBin::Uncompreessed(ours.compute_public_key().unwrap()),
        )
        .unwrap();
        let their_public = AwsLcRs::load_public_key_der(
            algorithm,
            &PublicKeyDer::EcPublicKey(theirs.compute_public_key().unwrap()),
        )
        .unwrap();
        assert_eq!(our_public.algorithm(), algorithm);
        assert_ne!(our_public.as_bytes(), their_public.as_bytes());
        let one = ours.agree(&their_public).unwrap();
        let other = theirs.agree(&our_public).unwrap();
        assert_eq!(one.as_ref(), other.as_ref());
        assert!(!one.as_ref().is_empty());
        let mut ephemeral = AwsLcRs::generate_ephemeral_private_key(algorithm).unwrap();
        let ephemeral_public = AwsLcRs::load_public_key_bin(
            algorithm,
            &PublicKeyBin::Uncompreessed(ephemeral.compute_public_key().unwrap()),
        )
        .unwrap();
        let secret = ephemeral.agree_ephemeral(&our_public).unwrap();
        assert_eq!(secret.as_ref(), ours.agree(&ephemeral_public).unwrap().as_ref());
        let second = ephemeral.agree_ephemeral(&their_public).unwrap();
        assert_eq!(second.as_ref(), theirs.agree(&ephemeral_public).unwrap().as_ref());
        ephemeral.erase();
        assert_eq!(ephemeral.agree_ephemeral(&our_public).err(), Some(Error::KeyRejected));
    }
}

#[test]
fn agreement_keys_are_rejected_by_their_encoding() {
    assert_eq!(
        AwsLcRs::load_private_key_bin(agreement::Algorithm::X25519, &PrivateKeyBin::Ec(vec![1; 32]))
            .err(),
        Some(Error::UnsupportedEncoding)
    );
    assert_eq!(
        AwsLcRs::load_private_key_bin(
            agreement::Algorithm::EcdhP256,
            &PrivateKeyBin::EdEcSeed(vec![1; 32])
        )
        .err(),
        Some(Error::UnsupportedEncoding)
    );
    assert_eq!(
        AwsLcRs::load_private_key_bin(agreement::Algorithm::EcdhP256, &PrivateKeyBin::Ec(vec![1; 5]))
            .err(),
        Some(Error::KeyRejected)
    );
    assert_eq!(
        AwsLcRs::load_private_key_bin(agreement::Algorithm::X448, &PrivateKeyBin::Ec(vec![1; 56]))
            .err(),
        Some(Error::UnsupportedAgreementAlgorithm)
    );
    assert_eq!(
        AwsLcRs::load_public_key_bin(agreement::Algorithm::X448, &PublicKeyBin::Compressed(vec![]))
            .err(),
        Some(Error::UnsupportedAgreementAlgorithm)
    );
    assert_eq!(
        EphemeralKey::generate(agreement::Algorithm::X448).err(),
        Some(Error::UnsupportedAgreementAlgorithm)
    );
    assert!(EcdhPrivateKey::new(agreement::Algorithm::X25519, vec![1; 32]).is_none());
    let key = X25519PrivateKey::new(vec![7; 32]);
    assert_eq!(key.algorithm(), agreement::Algorithm::X25519);
    assert_eq!(
        key.agree(&X25519PublicKey::new(vec![1, 2, 3])).err(),
        Some(Error::KeyRejected)
    );
}

#[test]
fn x25519_agrees_as_the_standard_says() {
    let alice = hex::decode("77076d0a7318a57d3c16c17251b26645df4c2f87ebc0992ab177fba51db92c2a")
        .unwrap();
    let bob_public =
        hex::decode("de9edb7d7b7dc1b4d35b61c2ece435373f8343c85b78674dadfc7e146f882b4f").unwrap();
    let alice_public =
        hex::decode("8520f0098930a754748b7ddcb43ef75a0dbf3a0d26381af4eba4a98eaa9b4e6a").unwrap();
    let shared =
        hex::decode("4a5d9d5ba4ce2de1728e3bf480350f25e07e21c947d19e3376f09b3c1e161742").unwrap();
    assert_eq!(
        agreement::compute_public_key(agreement::Algorithm::X25519, &alice).unwrap(),
        alice_public
    );
    assert_eq!(
        agreement::agree(agreement::Algorithm::X25519, &alice, &bob_public).unwrap().as_ref(),
        shared.as_slice()
    );
}

#[test]
fn secrets_are_erased() {
    let ours = agreement::generate_private_key(agreement::Algorithm::X25519).unwrap();
    let theirs = agreement::generate_private_key(agreement::Algorithm::X25519).unwrap();
    let public = agreement::compute_public_key(agreement::Algorithm::X25519, &theirs).unwrap();
    let mut secret = agreement::agree(agreement::Algorithm::X25519, &ours, &public).unwrap();
    assert_eq!(secret.as_ref().len(), 32);
    secret.erase();
    assert!(secret.as_ref().is_empty());
    let mut key = MessageKey::from_bytes(vec![1, 2, 3]);
    key.erase();
    assert!(key.as_ref().is_empty());
}

#[test]
fn algorithms_are_found_again_from_their_numbers() {
    for algorithm in [
        digest::Algorithm::Sha3_224,
        digest::Algorithm::Sha3_256,
        digest::Algorithm::Sha3_384,
        digest::Algorithm::Sha3_512,
        digest::Algorithm::Sha224,
        digest::Algorithm::Sha256,
        digest::Algorithm::Sha384,
        digest::Algorithm::Sha512,
    ] {
        assert_eq!(digest::Algorithm::try_from(algorithm.code()), Ok(algorithm));
    }
    assert_eq!(digest::Algorithm::try_from(672), Ok(digest::Algorithm::Sha256));
    assert_eq!(digest::Algorithm::try_from(1096), Ok(digest::Algorithm::Sha3_224));
    assert_eq!(digest::Algorithm::try_from(0), Err(Error::UnsupportedAlgorithm));
    assert_eq!(hkdf::Algorithm::try_from(1496), Ok(hkdf::Algorithm::Sha256));
    assert_eq!(hkdf::Algorithm::try_from(1497), Ok(hkdf::Algorithm::Sha384));
    assert_eq!(hkdf::Algorithm::try_from(1498), Ok(hkdf::Algorithm::Sha512));
    assert_eq!(hkdf::Algorithm::try_from(1499), Err(Error::UnsupportedAlgorithm));
    assert_eq!(hkdf::Algorithm::Sha384.max_output_len(), 255 * 48);
    assert_eq!(hkdf::Algorithm::Sha512.digest(), digest::Algorithm::Sha512);
    assert_eq!(Curve::try_from(415), Ok(Curve::P256));
    assert_eq!(Curve::try_from(715), Ok(Curve::P384));
    assert_eq!(Curve::try_from(716), Ok(Curve::P521));
    assert_eq!(Curve::try_from(1034), Ok(Curve::Curve25519));
    assert_eq!(Curve::try_from(1035), Ok(Curve::Curve448));
    assert_eq!(Curve::try_from(1087), Err(Error::UnsupportedAlgorithm));
    assert_eq!(Curve::P521.code(), 716);
    assert_eq!(agreement::Algorithm::try_from(714), Ok(agreement::Algorithm::EcdhP256));
    assert_eq!(agreement::Algorithm::try_from(1035), Ok(agreement::Algorithm::X448));
    assert_eq!(
        agreement::Algorithm::try_from(415),
        Err(Error::UnsupportedAgreementAlgorithm)
    );
    assert_eq!(agreement::Algorithm::X25519.code(), 1034);
    assert_eq!(
        signature::Algorithm::try_from(-1113),
        Ok(signature::Algorithm::EcdsaP256Sha256Fixed)
    );
    assert_eq!(signature::Algorithm::try_from(1088), Ok(signature::Algorithm::Ed448));
    assert_eq!(
        signature::Algorithm::try_from(0),
        Err(Error::UnsupportedSignatureAlgorithm)
    );
    assert_eq!(signature::Algorithm::EcdsaP384Sha384Fixed.code(), -1114);
}

#[test]
fn algorithms_name_their_curves() {
    assert_eq!(agreement::Algorithm::EcdhP256.curve(), Curve::P256);
    assert_eq!(agreement::Algorithm::EcdhP384.curve(), Curve::P384);
    assert_eq!(agreement::Algorithm::EcdhP521.curve(), Curve::P521);
    assert_eq!(agreement::Algorithm::X25519.curve(), Curve::Curve25519);
    assert_eq!(agreement::Algorithm::X448.curve(), Curve::Curve448);
    assert_eq!(signature::Algorithm::EcdsaP256Sha256Asn1.curve(), Curve::P256);
    assert_eq!(signature::Algorithm::EcdsaP256Sha256Fixed.curve(), Curve::P256);
    assert_eq!(signature::Algorithm::EcdsaP384Sha384Asn1.curve(), Curve::P384);
    assert_eq!(signature::Algorithm::EcdsaP384Sha384Fixed.curve(), Curve::P384);
    assert_eq!(signature::Algorithm::Ed25519.curve(), Curve::Curve25519);
    assert_eq!(signature::Algorithm::Ed448.curve(), Curve::Curve448);
}

#[test]
fn encodings_give_their_bytes() {
    assert_eq!(PrivateKeyDer::Pkcs8V1Key(vec![1]).as_ref(), &[1]);
    assert_eq!(PrivateKeyDer::Pkcs8V2Key(vec![2]).as_ref(), &[2]);
    assert_eq!(PrivateKeyDer::EcPrivateKey(vec![3]).as_ref(), &[3]);
    assert_eq!(PublicKeyDer::X509Key(vec![4]).as_ref(), &[4]);
    assert_eq!(PublicKeyDer::EcPublicKey(vec![5]).as_ref(), &[5]);
    assert_eq!(PrivateKeyBin::EdEcSeed(vec![6]).as_ref(), &[6]);
    assert_eq!(PrivateKeyBin::Ec(vec![7]).as_ref(), &[7]);
    assert_eq!(PublicKeyBin::Compressed(vec![8]).as_ref(), &[8]);
    assert_eq!(PublicKeyBin::Uncompreessed(vec![9]).as_ref(), &[9]);
}

#[test]
fn a_configuration_is_built_and_negotiates() {
    let provider = default_provider();
    assert!(provider.is_curve_supported(agreement::Algorithm::EcdhP256));
    assert!(!provider.is_curve_supported(agreement::Algorithm::X25519));
    assert!(!provider.is_curve_supported(agreement::Algorithm::X448));
    assert!(provider.is_algorithm_supported(hkdf::Algorithm::Sha512));
    assert!(provider.is_function_supported(digest::Algorithm::Sha3_256));
    assert!(!provider.is_function_supported(digest::Algorithm::Sha3_224));
    let builder = Config::builder_with_provider(provider);
    assert!(builder.supports_recommended_algorithms());
    let config = builder.with_recommended_algorithms().build();
    assert_eq!(
        config.curve,
        vec![
            agreement::Algorithm::EcdhP521,
            agreement::Algorithm::EcdhP384,
            agreement::Algorithm::EcdhP256
        ]
    );
    assert_eq!(
        config.hkdf,
        vec![hkdf::Algorithm::Sha256, hkdf::Algorithm::Sha512, hkdf::Algorithm::Sha384]
    );
    assert_eq!(config.hash.len(), 7);
    assert_eq!(config.hash[0], digest::Algorithm::Sha256);
    assert_eq!(
        config.negotiate(
            &[agreement::Algorithm::EcdhP256, agreement::Algorithm::EcdhP384],
            &[hkdf::Algorithm::Sha384, hkdf::Algorithm::Sha512],
            &[digest::Algorithm::Sha3_512, digest::Algorithm::Sha224]
        ),
        Ok(Negotiated {
            suite: Suite { agreement: agreement::Algorithm::EcdhP384, hkdf: hkdf::Algorithm::Sha512 },
            hash: digest::Algorithm::Sha224
        })
    );
    assert_eq!(
        config.negotiate(
            &[agreement::Algorithm::X25519],
            &[hkdf::Algorithm::Sha256],
            &[digest::Algorithm::Sha256]
        ),
        Err(Error::UnsupportedAlgorithm)
    );
    assert_eq!(
        config.negotiate(&[agreement::Algorithm::EcdhP256], &[], &[digest::Algorithm::Sha256]),
        Err(Error::UnsupportedAlgorithm)
    );
    assert_eq!(
        config.negotiate(
            &[agreement::Algorithm::EcdhP256],
            &[hkdf::Algorithm::Sha256],
            &[digest::Algorithm::Sha3_224]
        ),
        Err(Error::UnsupportedAlgorithm)
    );
    let custom = Config::builder_with_provider(default_provider())
        .with_curve(vec![agreement::Algorithm::EcdhP256])
        .with_hkdf(vec![hkdf::Algorithm::Sha256])
        .with_hash(vec![digest::Algorithm::Sha256])
        .build();
    assert_eq!(
        custom.negotiate(
            &[agreement::Algorithm::X25519, agreement::Algorithm::EcdhP256],
            &[hkdf::Algorithm::Sha256],
            &[digest::Algorithm::Sha256]
        ),
        Ok(Negotiated {
            suite: Suite { agreement: agreement::Algorithm::EcdhP256, hkdf: hkdf::Algorithm::Sha256 },
            hash: digest::Algorithm::Sha256
        })
    );
}

#[test]
fn errors_describe_themselves() {
    assert_eq!(Error::SignatureInvalid.description(), "invalid signature");
    assert_eq!(Error::MessageKeyExpired.description(), "message key expired");
    assert!(Error::DuplicateMessage.is_message_local());
    assert!(Error::MessageKeyExpired.is_message_local());
    assert!(!Error::SessionStateCorrupt.is_message_local());
    assert!(!Error::KeyRejected.is_message_local());
}

#[test]
fn an_ed25519_key_is_written_in_its_encodings() {
    let seed = hex::decode(SEED).unwrap();
    let key =
        AwsLcRs::load_signing_key_bin(signature::Algorithm::Ed25519, &PrivateKeyBin::EdEcSeed(seed.clone()))
            .unwrap();
    assert_eq!(key.to_ed_ec_be_bytes().unwrap().as_ref(), seed.as_slice());
    let v1 = key.to_pkcs8v1_der().unwrap();
    assert!(matches!(v1, PrivateKeyDer::Pkcs8V1Key(_)));
    let again = AwsLcRs::load_signing_key_der(signature::Algorithm::Ed25519, &v1).unwrap();
    assert_eq!(again.compute_public_key().unwrap(), hex::decode(PUBLIC).unwrap());
    let v2 = key.to_pkcs8v2_der().unwrap();
    assert!(matches!(v2, PrivateKeyDer::Pkcs8V2Key(_)));
    assert_ne!(v2.as_ref(), v1.as_ref());
    assert_eq!(key.to_rfc_5915_private_key_der().err(), Some(Error::UnsupportedEncoding));
    assert_eq!(key.to_ec_be_bytes().err(), Some(Error::UnsupportedEncoding));
    let verifying = AwsLcRs::load_verifying_key_bin(
        signature::Algorithm::Ed25519,
        &PublicKeyBin::Uncompreessed(hex::decode(PUBLIC).unwrap()),
    )
    .unwrap();
    let mut expected = hex::decode("302a300506032b6570032100").unwrap();
    expected.extend_from_slice(&hex::decode(PUBLIC).unwrap());
    assert_eq!(verifying.to_x509_der().unwrap().as_ref(), expected.as_slice());
    assert_eq!(verifying.to_be_bytes().unwrap().as_ref(), hex::decode(PUBLIC).unwrap().as_slice());
    assert_eq!(verifying.to_rfc_5915_public_key_der().err(), Some(Error::UnsupportedEncoding));
    assert_eq!(verifying.to_compressed_be_bytes().err(), Some(Error::UnsupportedEncoding));
    let from_x509 = AwsLcRs::load_verifying_key_der(
        signature::Algorithm::Ed25519,
        &PublicKeyDer::X509Key(expected),
    )
    .unwrap();
    assert!(from_x509.verify(b"", &hex::decode(SIGNATURE).unwrap()));
}

#[test]
fn an_ecdsa_key_is_written_in_its_encodings() {
    let algorithm = signature::Algorithm::EcdsaP256Sha256Asn1;
    let pkcs8 = signature::generate_signing_key(algorithm).unwrap();
    let key = AwsLcRs::load_signing_key_der(algorithm, &PrivateKeyDer::Pkcs8V1Key(pkcs8.clone()))
        .unwrap();
    let public = key.compute_public_key().unwrap();
    assert_eq!(public.len(), 65);
    assert_eq!(key.to_pkcs8v1_der().unwrap().as_ref(), pkcs8.as_slice());
    let structure = key.to_rfc_5915_private_key_der().unwrap();
    assert!(matches!(structure, PrivateKeyDer::EcPrivateKey(_)));
    assert_ne!(structure.as_ref(), pkcs8.as_slice());
    assert!(structure.as_ref().len() < pkcs8.len());
    let again = AwsLcRs::load_signing_key_der(algorithm, &structure).unwrap();
    assert_eq!(again.compute_public_key().unwrap(), public);
    let scalar = key.to_ec_be_bytes().unwrap();
    assert_eq!(scalar.as_ref().len(), 32);
    assert_eq!(
        agreement::compute_public_key(agreement::Algorithm::EcdhP256, scalar.as_ref()).unwrap(),
        public
    );
    assert_eq!(key.to_pkcs8v2_der().err(), Some(Error::UnsupportedEncoding));
    assert_eq!(key.to_ed_ec_be_bytes().err(), Some(Error::UnsupportedEncoding));
    let verifying =
        AwsLcRs::load_verifying_key_bin(algorithm, &PublicKeyBin::Uncompreessed(public.clone()))
            .unwrap();
    let x509 = verifying.to_x509_der().unwrap();
    assert!(x509.as_ref().ends_with(&public));
    assert!(x509.as_ref().len() > public.len());
    let signed = key.sign(b"message").unwrap();
    let from_x509 = AwsLcRs::load_verifying_key_der(algorithm, &x509).unwrap();
    assert!(from_x509.verify(b"message", &signed));
}

#[test]
fn encoded_keys_are_erased() {
    let mut der = PrivateKeyDer::EcPrivateKey(vec![1, 2, 3]);
    der.erase();
    assert!(matches!(der, PrivateKeyDer::EcPrivateKey(_)));
    assert!(der.as_ref().is_empty());
    let mut bin = PrivateKeyBin::EdEcSeed(vec![1, 2, 3]);
    bin.erase();
    assert!(bin.as_ref().is_empty());
    let mut public = PublicKeyDer::X509Key(vec![1]);
    public.erase();
    assert!(public.as_ref().is_empty());
    let mut point = PublicKeyBin::Compressed(vec![1]);
    point.erase();
    assert!(point.as_ref().is_empty());
    let prk = hkdf::Prk::new(hkdf::Algorithm::Sha256, b"s", b"k");
    let mut okm = e2ee::hkdf::Expander::expand(&prk, &[b"i"], 16).unwrap();
    assert_eq!(okm.as_ref().len(), 16);
    okm.erase();
    assert!(okm.as_ref().is_empty());
    let mut digest = e2ee::digest::Context::finish(e2ee::digest::HashContext::new(digest::Algorithm::Sha256).unwrap());
    assert_eq!(digest.as_ref().len(), 32);
    digest.erase();
    assert!(digest.as_ref().is_empty());
    assert!(e2ee::digest::HashContext::new(digest::Algorithm::Sha3_224).is_none());
}

#[test]
fn errors_of_the_backend_become_errors_of_the_library() {
    assert_eq!(Error::from(aws_lc_rs::error::Unspecified), Error::Unspecified);
    let rejected = aws_lc_rs::signature::Ed25519KeyPair::from_pkcs8(&[1, 2, 3]).err().unwrap();
    assert_eq!(Error::from(rejected), Error::KeyRejected);
}

#[test]
fn an_identity_is_generated_for_algorithms_that_the_backend_has() {
    let x25519 = Suite { agreement: agreement::Algorithm::X25519, hkdf: hkdf::Algorithm::Sha256 };
    let x448 = Suite { agreement: agreement::Algorithm::X448, hkdf: hkdf::Algorithm::Sha256 };
    assert_eq!(
        IdentityKeyPair::generate(x448, signature::Algorithm::Ed25519).err(),
        Some(Error::UnsupportedAgreementAlgorithm)
    );
    assert_eq!(
        IdentityKeyPair::generate(x448, signature::Algorithm::Ed448).err(),
        Some(Error::UnsupportedAgreementAlgorithm)
    );
    assert_eq!(
        IdentityKeyPair::generate(x25519, signature::Algorithm::Ed448).err(),
        Some(Error::UnsupportedSignatureAlgorithm)
    );
    let identity = IdentityKeyPair::generate(x25519, signature::Algorithm::Ed25519).unwrap();
    let public = identity.public();
    assert_eq!(
        agreement::compute_public_key(agreement::Algorithm::X25519, identity.agreement().private())
            .unwrap(),
        public.agreement
    );
    let signed = identity.sign(signature::Algorithm::Ed25519, b"prekey").unwrap();
    assert!(signature::verify(signature::Algorithm::Ed25519, &public.verifying, b"prekey", &signed));
}

#[test]
fn an_ephemeral_key_is_made_of_what_was_generated() {
    let algorithm = agreement::Algorithm::X25519;
    let bytes = hex::decode("77076d0a7318a57d3c16c17251b26645df4c2f87ebc0992ab177fba51db92c2a")
        .unwrap();
    let public = hex::decode("8520f0098930a754748b7ddcb43ef75a0dbf3a0d26381af4eba4a98eaa9b4e6a")
        .unwrap();
    let key = EphemeralKey::from_generated(algorithm, Ok(bytes.clone())).unwrap();
    assert_eq!(key.algorithm(), algorithm);
    assert_eq!(key.compute_public_key().unwrap(), public);
    assert_eq!(EphemeralKey::new(algorithm, bytes).compute_public_key().unwrap(), public);
    assert_eq!(
        EphemeralKey::from_generated(algorithm, Err(Error::Unspecified)).err(),
        Some(Error::Unspecified)
    );
    let generated = EphemeralKey::generate(agreement::Algorithm::EcdhP384).unwrap();
    assert_eq!(generated.algorithm(), agreement::Algorithm::EcdhP384);
    assert_eq!(generated.compute_public_key().unwrap().len(), 97);
    let provided = AwsLcRs::generate_ephemeral_private_key(agreement::Algorithm::EcdhP256).unwrap();
    assert_eq!(provided.algorithm(), agreement::Algorithm::EcdhP256);
    assert_eq!(
        AwsLcRs::generate_ephemeral_private_key(agreement::Algorithm::X448).err(),
        Some(Error::UnsupportedAgreementAlgorithm)
    );
}

#[test]
fn a_public_key_of_another_algorithm_is_rejected() {
    let p256 = agreement::generate_private_key(agreement::Algorithm::EcdhP256).unwrap();
    let p384 = agreement::generate_private_key(agreement::Algorithm::EcdhP384).unwrap();
    let x25519 = agreement::generate_private_key(agreement::Algorithm::X25519).unwrap();
    let p384_public =
        agreement::compute_public_key(agreement::Algorithm::EcdhP384, &p384).unwrap();
    let x25519_public =
        agreement::compute_public_key(agreement::Algorithm::X25519, &x25519).unwrap();
    let ours = EcdhPrivateKey::new(agreement::Algorithm::EcdhP256, p256.clone()).unwrap();
    let other_curve = EcdhPublicKey::new(agreement::Algorithm::EcdhP384, p384_public.clone());
    assert_eq!(ours.agree(&other_curve).err(), Some(Error::KeyRejected));
    let foreign = X25519PublicKey::new(x25519_public.clone());
    assert_eq!(ours.agree(&foreign).err(), Some(Error::KeyRejected));
    let mislabelled = EcdhPublicKey::new(agreement::Algorithm::EcdhP256, p384_public);
    assert_eq!(ours.agree(&mislabelled).err(), Some(Error::KeyRejected));
    let curve25519 = X25519PrivateKey::new(x25519);
    let point = EcdhPublicKey::new(
        agreement::Algorithm::EcdhP256,
        agreement::compute_public_key(agreement::Algorithm::EcdhP256, &p256).unwrap(),
    );
    assert_eq!(curve25519.agree(&point).err(), Some(Error::KeyRejected));
    assert!(ours.agree(&point).is_ok());
    assert_eq!(
        agreement::agree_with(agreement::Algorithm::X448, &[1; 56], &X25519PublicKey::new(vec![2; 32]))
            .err(),
        Some(Error::KeyRejected)
    );
    let without_backend = EcdhPublicKey::new(agreement::Algorithm::X448, vec![2; 56]);
    assert_eq!(ours.agree(&without_backend).err(), Some(Error::KeyRejected));
    assert_eq!(curve25519.agree(&without_backend).err(), Some(Error::KeyRejected));
    assert_eq!(
        agreement::agree_with(agreement::Algorithm::X448, &[1; 56], &without_backend).err(),
        Some(Error::UnsupportedAgreementAlgorithm)
    );
    assert_eq!(
        agreement::agree(agreement::Algorithm::EcdhP256, &p256, &x25519_public).err(),
        Some(Error::KeyRejected)
    );
}

#[test]
fn an_agreement_key_goes_to_der_and_back() {
    for algorithm in [
        agreement::Algorithm::EcdhP256,
        agreement::Algorithm::EcdhP384,
        agreement::Algorithm::EcdhP521,
    ] {
        let raw = agreement::generate_private_key(algorithm).unwrap();
        let der = agreement::private_key_to_der(algorithm, &raw).unwrap();
        assert_ne!(der, raw);
        assert_eq!(der[0], 0x30);
        assert_eq!(agreement::private_key_from_der(algorithm, &der).unwrap(), raw);
        let key = AwsLcRs::load_private_key_der(algorithm, &PrivateKeyDer::Pkcs8V1Key(der.clone()))
            .unwrap();
        assert_eq!(key.algorithm(), algorithm);
        assert_eq!(key.as_der().unwrap(), der);
        assert_eq!(
            key.compute_public_key().unwrap(),
            agreement::compute_public_key(algorithm, &raw).unwrap()
        );
    }
}

#[test]
fn an_agreement_key_is_read_from_the_elliptic_curve_structure() {
    let algorithm = agreement::Algorithm::EcdhP256;
    let raw = agreement::generate_private_key(algorithm).unwrap();
    let key = aws_lc_rs::agreement::PrivateKey::from_private_key(&aws_lc_rs::agreement::ECDH_P256, &raw)
        .unwrap();
    let structure: EcPrivateKeyRfc5915Der = key.as_der().unwrap();
    assert_eq!(agreement::private_key_from_der(algorithm, structure.as_ref()).unwrap(), raw);
    let loaded = AwsLcRs::load_private_key_der(
        algorithm,
        &PrivateKeyDer::EcPrivateKey(structure.as_ref().to_vec()),
    )
    .unwrap();
    assert_eq!(
        loaded.compute_public_key().unwrap(),
        agreement::compute_public_key(algorithm, &raw).unwrap()
    );
}

#[test]
fn an_agreement_key_in_der_is_rejected_where_it_does_not_fit() {
    let p256 = agreement::Algorithm::EcdhP256;
    let raw = agreement::generate_private_key(p256).unwrap();
    let der = agreement::private_key_to_der(p256, &raw).unwrap();
    assert_eq!(
        agreement::private_key_from_der(agreement::Algorithm::EcdhP384, &der).err(),
        Some(Error::KeyRejected)
    );
    assert_eq!(agreement::private_key_from_der(p256, b"no document").err(), Some(Error::KeyRejected));
    assert_eq!(agreement::private_key_from_der(p256, &[]).err(), Some(Error::KeyRejected));
    assert_eq!(
        agreement::private_key_from_der(agreement::Algorithm::X25519, &der).err(),
        Some(Error::KeyRejected)
    );
    assert_eq!(
        agreement::private_key_from_der(agreement::Algorithm::X448, &der).err(),
        Some(Error::UnsupportedAgreementAlgorithm)
    );
    assert_eq!(
        AwsLcRs::load_private_key_der(agreement::Algorithm::X25519, &PrivateKeyDer::Pkcs8V1Key(der))
            .err(),
        Some(Error::KeyRejected)
    );
    assert_eq!(agreement::private_key_to_der(p256, &[1; 5]).err(), Some(Error::KeyRejected));
    let seed = agreement::generate_private_key(agreement::Algorithm::X25519).unwrap();
    assert_eq!(
        agreement::private_key_to_der(agreement::Algorithm::X25519, &seed).err(),
        Some(Error::Unspecified)
    );
    assert_eq!(
        agreement::private_key_to_der(agreement::Algorithm::X448, &seed).err(),
        Some(Error::UnsupportedAgreementAlgorithm)
    );
    assert!(X25519PrivateKey::new(seed).as_der().is_err());
}

#[test]
fn keys_and_secrets_have_the_length_of_the_algorithm() {
    for (algorithm, len) in [
        (agreement::Algorithm::EcdhP256, 32),
        (agreement::Algorithm::EcdhP384, 48),
        (agreement::Algorithm::EcdhP521, 66),
        (agreement::Algorithm::X25519, 32),
    ] {
        let ours = agreement::generate_private_key(algorithm).unwrap();
        let theirs = agreement::generate_private_key(algorithm).unwrap();
        assert_eq!(ours.len(), len);
        let public = agreement::compute_public_key(algorithm, &theirs).unwrap();
        let secret = agreement::agree(algorithm, &ours, &public).unwrap();
        assert_eq!(secret.as_ref().len(), len);
        let back = agreement::agree(
            algorithm,
            &theirs,
            &agreement::compute_public_key(algorithm, &ours).unwrap(),
        )
        .unwrap();
        assert_eq!(back.as_ref(), secret.as_ref());
    }
}
