use std::io::{Cursor, Read, Write};

use base64::engine::general_purpose::STANDARD;
use base64::Engine;
use digidoc::certificate::{parse_certificate, NameAttribute};
use digidoc::digidoc::builder::{
    continue_with_revocation, continue_with_timestamp, create_signature_xml, issuer_certificate,
    signature_file, TEMPLATE_END, TEMPLATE_START,
};
use digidoc::digidoc::reader::{
    certificate_key, extract_common_name, is_signature_entry, parse_signature, resolve_file,
    x509_time_to_chrono,
};
use digidoc::digidoc::records::{
    Cert, CertDigest, CertificateValues, DataObjectFormat, DigiDocManifest, FileEntriesManifest,
    FileEntry, IssuerSerial, KeyInfo, Method, Object, OcspValues, QualifyingProperties, Reference,
    RevocationValues, Signature, SignatureTimeStamp, SignatureValue, SignedDataObjectProperties,
    SignedInfo, SignedProperties, SignedSignatureProperties, SigningCertificate,
    UnsignedProperties, UnsignedSignatureProperties, X509Data, XAdEsSignatures,
};
use digidoc::digidoc::{
    strip_tag_prefixes, ContainerContents, ContainerEntry, DigiDocSignature, SignatureDocument,
    SigningStep,
};
use digidoc::pki::ocsp::{build_ocsp_request, ocsp_request_for};
use digidoc::xmldsig::{
    parse_rsa_private_key, upgrade_xades_bes_to_t, upgrade_xades_t_to_lt, XadesBesResult,
    XadesDataFile, XadesProductionPlace, XadesSignatureInputs,
};
use digidoc::{
    build_xades_basic_signature, sign_enveloping, verify_signature, DigiDocBuilder, DigiDocFile,
    DigiDocReader, DigiDocSignerInput, DigiDocValidationResult, PublicKeyType, SignatureError,
    Signer, SigningKeyType, Timestamp,
};
use roxmltree::{Document, Node};
use rsa::pkcs1v15::{Signature as RsaSignature, VerifyingKey};
use rsa::pkcs8::DecodePrivateKey;
use rsa::signature::Verifier;
use rsa::RsaPrivateKey;
use serde::ser::{Serialize, SerializeStruct, Serializer};
use sha1::Sha1;
use sha2::{Digest, Sha256, Sha384, Sha512};
use xml_sec::c14n::{canonicalize_xml, C14nAlgorithm, C14nMode};
use zip::write::SimpleFileOptions;
use zip::{CompressionMethod, ZipArchive, ZipWriter};

/// An RSA private key of 2048 bits, in PKCS#8.
const RSA_KEY: &str = "\
    MIIEvgIBADANBgkqhkiG9w0BAQEFAASCBKgwggSkAgEAAoIBAQDBiBonconQ1CvCxoUAa5PhcNMxumPd5Huv6bDKnS\
    9TCvFOVLKvnn+gYHhvDW8ABDD566/FbkcXaIpc6EI/5Qd6Tyob9X1OXlYzFC+OMazNozGQSkDL6IhrcUzp0FKH5Vr5\
    uM6yIH2mFLDUljDlz9wE5elVcgcMwFddczjoBFlWXC9UTRjNwDL5PyRjkYYzRod13As+3/ARIePEgZ6UuiswdJ/0f9\
    XX3Vf+MR5mTSaPRV2wZlVPzLduQnJgCs5NbakOT3WnWJdIM/LlPLh0RE+GhJ7KN3+J5De+KmTeiOlvlkBzuNuRIBI5\
    cZC9TgTemEmh028TuxpgzekNrqW694IBAgMBAAECggEABSBp6XM5un8BVwI3YBvJbcCVbqD8b+KDYoVBMDfWWue8fU\
    3F8zwijzz4+b+gSe7CfZ9YP1WQ02pa9nO2XA8RCfTWham0z151P/qEGTsgg8zDtYnbAi/La9WzMvMoWYZaSOjT7GDr\
    FSsBhWsiWdceEeDlg8R+0nAWrGB+0JobY/vGunPfJ07dIKgL5I2goC93uQplyojZwX5H+mPMhJOLnAi1bEg/gj2NBq\
    EIz5/joVoiWiH9gnjVR8MskMQO/nmhL1qhsPnGU63ckoy6p7F745SER6mRSt9BtJrc2Rfc/5pVnjOASRS/iyco6Fuj\
    4bkk9ruD/dRsJA+Rf+MxoYmxwQKBgQDshKDsPYnAHfe7AUos9En8J5aol7xO0c0mGxQ1FnE2yy/qJvjLgAjQFhrbyA\
    005nR7yDDK97MAK7uAkViQwdOnmsHSvfOb4+6wnSl2jyAUnuZlytdmoHDlzLoullBR5zkRcmmNkXwFXTn+Yjv1QbEW\
    dN/0QDQvp03H5i1bNNj5oQKBgQDReQjBEOftKZwjgDES/Y5ESLbcwCsGSjEINu4J3+TuTRfjfTqKF2Gew5dE3wKzg/\
    ebUTb8GyFkhUmGcAlEoK3qtUO71ccuxRit/JFqjNtfZqHKolUETdX/EDOMYK/Mx607KlKwY3KrabGKOXFNpjUrZZQt\
    pP0HDs/sl18A/9FsYQKBgHHY3YUZkgbx5d8UHdpJtJs1iyWX9EKUZoVjH3T2WoSfhW7WV4fNF3DiUwdb4k+GZqd2k1\
    X/qR/57QVT8SesxO62ZXnFiU+OhcRpwh2Zgz2pxwlUfB6gN/fFdhEatYrXG/cz9W75ipMibtnt+yJw/obqtyphBT2y\
    8JO6TjbK125BAoGBAKoOfbnnlLIoRrdXef+100rCUZpTdFpt3vKRTZy8pKmF8u/fmafEJZ9zoJnsBtBgQaNZQq9XAz\
    wNLUy0JgIOBEN4lx2mB0eEAW42joOXCP2hX5YXRbfxzNp+d6ruT6qLLKrMyEak5dIdQ2I5Ei/80EuD8tE/kZ+qOckU\
    dq9j/8vhAoGBAJM5Bl8S+T6XFwAt1dOFV8NbZ1EmhF+PqUCDN6BPSow8uN/HnaiJtOCPok3Ln1bnNadXRF/HGMGxus\
    s/2Fdnvn9KmpOiaQorPxCnNclFCz57qiK+Lww9/P9uUoYuRXyIgNR/MLzwR9ZPfThBYvhVToxs87tS3KA+ekEr+3So\
    M4pG\
    ";

/// The same key in PKCS#1.
const RSA_KEY_PKCS1: &str = "\
    MIIEpAIBAAKCAQEAwYgaJ3KJ0NQrwsaFAGuT4XDTMbpj3eR7r+mwyp0vUwrxTlSyr55/oGB4bw1vAAQw+euvxW5HF2\
    iKXOhCP+UHek8qG/V9Tl5WMxQvjjGszaMxkEpAy+iIa3FM6dBSh+Va+bjOsiB9phSw1JYw5c/cBOXpVXIHDMBXXXM4\
    6ARZVlwvVE0YzcAy+T8kY5GGM0aHddwLPt/wESHjxIGelLorMHSf9H/V191X/jEeZk0mj0VdsGZVT8y3bkJyYArOTW\
    2pDk91p1iXSDPy5Ty4dERPhoSeyjd/ieQ3vipk3ojpb5ZAc7jbkSASOXGQvU4E3phJodNvE7saYM3pDa6luveCAQID\
    AQABAoIBAAUgaelzObp/AVcCN2AbyW3AlW6g/G/ig2KFQTA31lrnvH1NxfM8Io88+Pm/oEnuwn2fWD9VkNNqWvZztl\
    wPEQn01oWptM9edT/6hBk7IIPMw7WJ2wIvy2vVszLzKFmGWkjo0+xg6xUrAYVrIlnXHhHg5YPEftJwFqxgftCaG2P7\
    xrpz3ydO3SCoC+SNoKAvd7kKZcqI2cF+R/pjzISTi5wItWxIP4I9jQahCM+f46FaIloh/YJ41UfDLJDEDv55oS9aob\
    D5xlOt3JKMuqexe+OUhEepkUrfQbSa3NkX3P+aVZ4zgEkUv4snKOhbo+G5JPa7g/3UbCQPkX/jMaGJscECgYEA7ISg\
    7D2JwB33uwFKLPRJ/CeWqJe8TtHNJhsUNRZxNssv6ib4y4AI0BYa28gNNOZ0e8gwyvezACu7gJFYkMHTp5rB0r3zm+\
    PusJ0pdo8gFJ7mZcrXZqBw5cy6LpZQUec5EXJpjZF8BV05/mI79UGxFnTf9EA0L6dNx+YtWzTY+aECgYEA0XkIwRDn\
    7SmcI4AxEv2OREi23MArBkoxCDbuCd/k7k0X4306ihdhnsOXRN8Cs4P3m1E2/BshZIVJhnAJRKCt6rVDu9XHLsUYrf\
    yRaozbX2ahyqJVBE3V/xAzjGCvzMetOypSsGNyq2mxijlxTaY1K2WULaT9Bw7P7JdfAP/RbGECgYBx2N2FGZIG8eXf\
    FB3aSbSbNYsll/RClGaFYx909lqEn4Vu1leHzRdw4lMHW+JPhmandpNV/6kf+e0FU/EnrMTutmV5xYlPjoXEacIdmY\
    M9qccJVHweoDf3xXYRGrWK1xv3M/Vu+YqTIm7Z7fsicP6G6rcqYQU9svCTuk42ytduQQKBgQCqDn2555SyKEa3V3n/\
    tdNKwlGaU3Rabd7ykU2cvKSphfLv35mnxCWfc6CZ7AbQYEGjWUKvVwM8DS1MtCYCDgRDeJcdpgdHhAFuNo6Dlwj9oV\
    +WF0W38czafneq7k+qiyyqzMhGpOXSHUNiORIv/NBLg/LRP5GfqjnJFHavY//L4QKBgQCTOQZfEvk+lxcALdXThVfD\
    W2dRJoRfj6lAgzegT0qMPLjfx52oibTgj6JNy59W5zWnV0RfxxjBsbrLP9hXZ75/SpqTomkKKz8QpzXJRQs+e6oivi\
    8MPfz/blKGLkV8iIDUfzC88EfWT304QWL4VU6MbPO7UtygPnpBK/t0qDOKRg==\
    ";

/// A certificate for it: `C=EE, O=Example, CN=Test Signer`, valid from 2020 to 2120.
const RSA_CERTIFICATE: &str = "\
    MIIDPTCCAiWgAwIBAgIEEjSrzTANBgkqhkiG9w0BAQsFADA1MQswCQYDVQQGEwJFRTEQMA4GA1UECgwHRXhhbXBsZT\
    EUMBIGA1UEAwwLVGVzdCBTaWduZXIwIBcNMjAwMTAxMDAwMDAwWhgPMjEyMDAxMDEwMDAwMDBaMDUxCzAJBgNVBAYT\
    AkVFMRAwDgYDVQQKDAdFeGFtcGxlMRQwEgYDVQQDDAtUZXN0IFNpZ25lcjCCASIwDQYJKoZIhvcNAQEBBQADggEPAD\
    CCAQoCggEBAMGIGidyidDUK8LGhQBrk+Fw0zG6Y93ke6/psMqdL1MK8U5Usq+ef6BgeG8NbwAEMPnrr8VuRxdoilzo\
    Qj/lB3pPKhv1fU5eVjMUL44xrM2jMZBKQMvoiGtxTOnQUoflWvm4zrIgfaYUsNSWMOXP3ATl6VVyBwzAV11zOOgEWV\
    ZcL1RNGM3AMvk/JGORhjNGh3XcCz7f8BEh48SBnpS6KzB0n/R/1dfdV/4xHmZNJo9FXbBmVU/Mt25CcmAKzk1tqQ5P\
    dadYl0gz8uU8uHRET4aEnso3f4nkN74qZN6I6W+WQHO425EgEjlxkL1OBN6YSaHTbxO7GmDN6Q2upbr3ggECAwEAAa\
    NTMFEwHQYDVR0OBBYEFPH2AWokpa1FCsemRbRkM18DEbjxMB8GA1UdIwQYMBaAFPH2AWokpa1FCsemRbRkM18DEbjx\
    MA8GA1UdEwEB/wQFMAMBAf8wDQYJKoZIhvcNAQELBQADggEBAG9wunSFlx8pgvie1fNtUa2dX2/iMTUbJE96w0BlDH\
    JURWM16lSA5x5JCHdOU3xuFdnKL78am4PouYU5ijaP3749ZnYHl4NfE/4ey2IOWPtCwuo4IhGgoOebb3xB+/g+a+jV\
    kUwt0SiLXuh+hAGjuu+gXEHShG2MZj5AZN0jY/UxbsSJEN5TcsKAylJTFgLBVgdOw5o7RXjKcvNGrFYHqGubDRo59b\
    +I2ji0mGdLlBfJu0OMrbKKcOhivjyJF2AM0H4eUQ32SFTqqKKYweiDEXFWDWX/ExCJ74k7N1sJKyq3syf0COc7yVuf\
    WGIDuuV5R0n4DO3kCtvi6991l22w+1E=\
    ";

/// Another certificate for it: `CN=Old Signer`, valid in 2010.
const OLD_CERTIFICATE: &str = "\
    MIIC+DCCAeCgAwIBAgIBBjANBgkqhkiG9w0BAQsFADAVMRMwEQYDVQQDDApPbGQgU2lnbmVyMB4XDTEwMDEwMTAwMD\
    AwMFoXDTExMDEwMTAwMDAwMFowFTETMBEGA1UEAwwKT2xkIFNpZ25lcjCCASIwDQYJKoZIhvcNAQEBBQADggEPADCC\
    AQoCggEBAMGIGidyidDUK8LGhQBrk+Fw0zG6Y93ke6/psMqdL1MK8U5Usq+ef6BgeG8NbwAEMPnrr8VuRxdoilzoQj\
    /lB3pPKhv1fU5eVjMUL44xrM2jMZBKQMvoiGtxTOnQUoflWvm4zrIgfaYUsNSWMOXP3ATl6VVyBwzAV11zOOgEWVZc\
    L1RNGM3AMvk/JGORhjNGh3XcCz7f8BEh48SBnpS6KzB0n/R/1dfdV/4xHmZNJo9FXbBmVU/Mt25CcmAKzk1tqQ5Pda\
    dYl0gz8uU8uHRET4aEnso3f4nkN74qZN6I6W+WQHO425EgEjlxkL1OBN6YSaHTbxO7GmDN6Q2upbr3ggECAwEAAaNT\
    MFEwHQYDVR0OBBYEFPH2AWokpa1FCsemRbRkM18DEbjxMB8GA1UdIwQYMBaAFPH2AWokpa1FCsemRbRkM18DEbjxMA\
    8GA1UdEwEB/wQFMAMBAf8wDQYJKoZIhvcNAQELBQADggEBAEwzZFkypnRFkTHhIseVpCeesBJqksVZDC76gkzhgwL8\
    fLGfSJmSJEBE7w8IUqlllgHa1/WF/HKXgSFnYQWkxjAsVCG/oSxRVuDSHauPy7R0YHsa9LNsFrEHxixpheK4tp/ju/\
    /49gvJjxV2trb1U2uoFEn8dSsijJhBtyI4ExQWMlgb0X2WQiIQpNOH8lEekmit2oVvCMMJK1umbEuXGlmPspA6bUJJ\
    aJ5k/iECseOoqv2ZxjwqRk6Ec+3gc/4NadAbWnqEmjnROELchRN55xT1vp6ZusrdKDvJJ4dXKK0oEDEYHvuMiT0hry\
    oYM9N+x95eCO4qQ+ILI1kWjtp0vUY=\
    ";

/// A P-256 private key, in PKCS#8.
const P256_KEY: &str = "\
    MIGHAgEAMBMGByqGSM49AgEGCCqGSM49AwEHBG0wawIBAQQgyvknqaNyo70f7Ps0fhLHjpFDl1/5JAmWcPbxppxM+z\
    KhRANCAASufyzqKSE+XjhEtamzFDBEtbm5Ox/1l2J0wwlYvSPODvWVrJ7gfvl+k++ug/IzLsmx244lQGRZGjs/VRfi\
    apIS\
    ";

/// A certificate for it: `C=EE, CN=Curve Signer`.
const P256_CERTIFICATE: &str = "\
    MIIBizCCATKgAwIBAgIBAjAKBggqhkjOPQQDAjAkMQswCQYDVQQGEwJFRTEVMBMGA1UEAwwMQ3VydmUgU2lnbmVyMC\
    AXDTIwMDEwMTAwMDAwMFoYDzIxMjAwMTAxMDAwMDAwWjAkMQswCQYDVQQGEwJFRTEVMBMGA1UEAwwMQ3VydmUgU2ln\
    bmVyMFkwEwYHKoZIzj0CAQYIKoZIzj0DAQcDQgAErn8s6ikhPl44RLWpsxQwRLW5uTsf9ZdidMMJWL0jzg71laye4H\
    75fpPvroPyMy7JsduOJUBkWRo7P1UX4mqSEqNTMFEwHQYDVR0OBBYEFByJopuzpkLGFWcK8V2M/S7eRounMB8GA1Ud\
    IwQYMBaAFByJopuzpkLGFWcK8V2M/S7eRounMA8GA1UdEwEB/wQFMAMBAf8wCgYIKoZIzj0EAwIDRwAwRAIgIaO1dK\
    brhKXvLlXydHoT2p1MwmS65GbG/SepQGVH4g4CIC6tKyomMnxdkFw42yR0HaykZyTdnGO2ClLondj66fV2\
    ";

/// An RSA private key of 1024 bits, in PKCS#8.
const SMALL_RSA_KEY: &str = "\
    MIICdwIBADANBgkqhkiG9w0BAQEFAASCAmEwggJdAgEAAoGBAKv/wmlfXsYZEFXun8KK9c0oCmryZCxfvJrrOW7ZtB\
    JGZlDOXoxotyEXGdJbAS4zqeUFUw/FPb/KL0Ksl+AYfvRIO3gR2wNw57r5PtwcwW16MSWJWje/S4rDtKpJzIUyDLs/\
    mTIou+QtTDurpGXcF26fOiVhsT9dV64a6EgMfF0LAgMBAAECgYAy4V7mgwLrQSDW+tch2q+p9+1VA81kXxHRFkKQKz\
    Ccs1yzDMlladi6njXSR3+K5lec2z1eDfAdWzct1xa6gSSUrJFwlXvsHZ3terzbvz6DaM4V0UgrtOrZ3SC8iTUtzZ8Y\
    amwW/nB7qv8iVEt35yds18XHXsEa7pThHtej76YoiQJBAOENTL32noAOjn0etrTAVD6F/gAASzZQNivWCio/9lwhcs\
    TeWOyrNwXMnGnInAjRGLPFys7D11wyMw5tSuA0E38CQQDDpsra4JwdwczVkeX+7kyzbcwMof7ZT9tVo9etHuR/T4UK\
    6zZEpFSH8s1315YvxP7Rmsp2tz6gAHIB1y/w+ox1AkEA1CIkN1+S8eRGvXvI/sHX5wOIc9nTC4Q6O8HK3R5ji15f/2\
    AS9CtDdyzyNuhI5CqsnTAQxitmAdqzs6KjlIih4wJBAMLIZSCviP1fGexuCkpZOGdSIllZVf1HsZd7PJeQL/BHXK7Y\
    KPkBmV6XbdOoAE+ikgZfUr4KBQEKMHaAo6wH5JkCQD+DgSiFnjU9/Gyzk3A8/rxVewzySpmDr/UhdQeEQ/LKwKFTPY\
    2dtbpdJ0g83cMdHDXuHHySBTVKfW4O7kufbF8=\
    ";

/// A secp256k1 private key, in PKCS#8.
const K256_KEY: &str = "\
    MIGEAgEAMBAGByqGSM49AgEGBSuBBAAKBG0wawIBAQQgzruP5c5IWGHzaVJZLVmUY9TwWJb7Hc/MzMwGce7QO2ehRA\
    NCAAR3tVaD7sQECL9Qi82+g9oENqoKMIx0C1QYK6jJgXzIVpGw1ea/0Btd0aGUe4qlD8GJmP9S2mBpufbglyYasK+H\
    ";

/// A certificate for it: `C=EE, CN=Koblitz Signer`.
const K256_CERTIFICATE: &str = "\
    MIIBjTCCATOgAwIBAgIBAzAKBggqhkjOPQQDAjAmMQswCQYDVQQGEwJFRTEXMBUGA1UEAwwOS29ibGl0eiBTaWduZX\
    IwIBcNMjAwMTAxMDAwMDAwWhgPMjEyMDAxMDEwMDAwMDBaMCYxCzAJBgNVBAYTAkVFMRcwFQYDVQQDDA5Lb2JsaXR6\
    IFNpZ25lcjBWMBAGByqGSM49AgEGBSuBBAAKA0IABHe1VoPuxAQIv1CLzb6D2gQ2qgowjHQLVBgrqMmBfMhWkbDV5r\
    /QG13RoZR7iqUPwYmY/1LaYGm59uCXJhqwr4ejUzBRMB0GA1UdDgQWBBRceJFEE0rpR8cZZjD1Q0WggF5vlzAfBgNV\
    HSMEGDAWgBRceJFEE0rpR8cZZjD1Q0WggF5vlzAPBgNVHRMBAf8EBTADAQH/MAoGCCqGSM49BAMCA0gAMEUCIQDwr/\
    P5DAd5hRRK1ZTq2t+WjPcGeqwNIpYBSU08leDCGAIgIuUf8nSxyFlDxS4aV9peM4v7+5QitgMOucYhyivZJFY=\
    ";

/// A certificate for a key on another curve.
const P384_CERTIFICATE: &str = "\
    MIIBxzCCAU2gAwIBAgIBBDAKBggqhkjOPQQDAjAjMQswCQYDVQQGEwJFRTEUMBIGA1UEAwwLT3RoZXIgQ3VydmUwIB\
    cNMjAwMTAxMDAwMDAwWhgPMjEyMDAxMDEwMDAwMDBaMCMxCzAJBgNVBAYTAkVFMRQwEgYDVQQDDAtPdGhlciBDdXJ2\
    ZTB2MBAGByqGSM49AgEGBSuBBAAiA2IABNQ5Qu+30cXBJO6jlUU74AJCqwLtcLKIT4s0k8mQ6/DUu+Um6ShJpichDF\
    TV/8hQGz9uLz8OhaCJ2JW5WS9DSuIvOJJ8zfct0lQTcLcJXobD2qnIgyEhHJRfE7muvcvrLaNTMFEwHQYDVR0OBBYE\
    FA4zQVOKk00g3/Q5XFKTvNMQrMVRMB8GA1UdIwQYMBaAFA4zQVOKk00g3/Q5XFKTvNMQrMVRMA8GA1UdEwEB/wQFMA\
    MBAf8wCgYIKoZIzj0EAwIDaAAwZQIxAOLQomi3SmRMHzu4YtUOwsWTi72aSXosZBtcwmCnNX8ObkyPJsQT8l7FvQq3\
    dkaJMAIwHXXd1Lw57AmUq2ZJcWJc/8l0VQZDCTPyc9rRxafykKPlk7sIWdvue9Et7i0egYOb\
    ";

/// A certificate for a key of another kind, without a common name.
const ED25519_CERTIFICATE: &str = "\
    MIIBQTCB9KADAgECAgEFMAUGAytlcDAfMQswCQYDVQQGEwJFRTEQMA4GA1UECgwHTm8gTmFtZTAgFw0yMDAxMDEwMD\
    AwMDBaGA8yMTIwMDEwMTAwMDAwMFowHzELMAkGA1UEBhMCRUUxEDAOBgNVBAoMB05vIE5hbWUwKjAFBgMrZXADIQC/\
    A0/LUbqnDlQvICURvWoya1+a/+iSfRy//IJnLfUcUKNTMFEwHQYDVR0OBBYEFPOojrwRBW0XCiaapL1bxvBScGw/MB\
    8GA1UdIwQYMBaAFPOojrwRBW0XCiaapL1bxvBScGw/MA8GA1UdEwEB/wQFMAMBAf8wBQYDK2VwA0EAQfkImbfXtHZE\
    9hXFHb483pYI46vJHPh6BveueJULDCmKsCrzBVtf/j4LX7Y4xrsft7h1Zjp/N9gqg+hIocMFAw==\
    ";

fn bytes(text: &str) -> Vec<u8> {
    STANDARD.decode(text).unwrap()
}

fn pem(label: &str, text: &str) -> String {
    let mut out = format!("-----BEGIN {}-----\n", label);
    for line in text.as_bytes().chunks(64) {
        out.push_str(std::str::from_utf8(line).unwrap());
        out.push('\n');
    }
    out.push_str(&format!("-----END {}-----\n", label));
    out
}

fn time(text: &str) -> Timestamp {
    Timestamp::parse_rfc3339(text).unwrap()
}

fn signer_input(key: SigningKeyType, certificate: &str) -> DigiDocSignerInput {
    DigiDocSignerInput {
        signer: Box::new(key),
        certificate_der: bytes(certificate),
        signing_time: time("2026-01-15T12:00:00Z"),
        production_place: None,
        claimed_roles: Vec::new(),
        tsa_url: None,
        ocsp_url: None,
        issuer_cert_der: None,
    }
}

fn rsa_input() -> DigiDocSignerInput {
    signer_input(SigningKeyType::Rsa(bytes(RSA_KEY)), RSA_CERTIFICATE)
}

/// Makes the signature documents that need nobody else.
fn sign_all(builder: &DigiDocBuilder) -> Vec<String> {
    (0..builder.signer_count())
        .map(|i| {
            match builder.build_xades_signature(builder.signer_input(i), builder.signer_number(i)) {
                Ok(SigningStep::Done(xml)) => xml,
                Ok(_) => panic!("more to fetch"),
                Err(e) => panic!("{}", e),
            }
        })
        .collect()
}

fn write_archive(entries: &[ContainerEntry]) -> Vec<u8> {
    let mut zip = ZipWriter::new(Cursor::new(Vec::new()));
    for entry in entries {
        let method =
            if entry.compressed { CompressionMethod::Deflated } else { CompressionMethod::Stored };
        let options = SimpleFileOptions::default().compression_method(method);
        zip.start_file(entry.name.as_str(), options).unwrap();
        zip.write_all(&entry.content).unwrap();
    }
    zip.finish().unwrap().into_inner()
}

fn build_archive(builder: &DigiDocBuilder) -> ZipArchive<Cursor<Vec<u8>>> {
    let entries = builder.create_container(&sign_all(builder));
    ZipArchive::new(Cursor::new(write_archive(&entries))).unwrap()
}

fn build_container(
    files: &[(&str, &[u8], &str)],
    signatures: Vec<DigiDocSignature>,
) -> ZipArchive<Cursor<Vec<u8>>> {
    let mut builder = DigiDocBuilder::new();
    for (name, content, mime) in files {
        builder = builder.add_file_content(name.to_string(), content.to_vec(), mime);
    }
    for signature in signatures {
        builder = builder.add_signature(signature);
    }
    build_archive(&builder)
}

fn sample_signature() -> DigiDocSignature {
    DigiDocSignature {
        certificate: vec![0xAAu8; 32],
        signature_value: vec![0xBBu8; 64],
        signed_info: "<ds:SignedInfo/>".to_string(),
        signing_time: time("2026-01-15T12:00:00Z"),
    }
}

fn child<'a, 'i>(node: Node<'a, 'i>, name: &str) -> Result<Node<'a, 'i>, String> {
    node.children()
        .find(|n| n.tag_name().name() == name)
        .ok_or_else(|| format!("missing {}", name))
}

fn inside<'a, 'i>(node: Node<'a, 'i>, names: &[&str]) -> Result<Node<'a, 'i>, String> {
    names.iter().try_fold(node, |n, name| child(n, name))
}

fn content(node: Node) -> String {
    node.text().unwrap_or("").to_string()
}

fn named(node: Node, name: &str) -> String {
    node.attribute(name).unwrap_or("").to_string()
}

fn method(node: Node, name: &str) -> Result<Method, String> {
    Ok(Method { algorithm: named(child(node, name)?, "Algorithm") })
}

fn value(node: Node) -> SignatureValue {
    SignatureValue { id: named(node, "Id"), text: content(node) }
}

/// Reads a signature document.
fn read_records(text: &str) -> Result<XAdEsSignatures, String> {
    let stripped = strip_tag_prefixes(text);
    let document = Document::parse(&stripped).map_err(|e| e.to_string())?;
    let root = document.root_element();
    let signature = child(root, "Signature")?;
    let info = child(signature, "SignedInfo")?;
    let mut reference = Vec::new();
    for node in info.children().filter(|n| n.tag_name().name() == "Reference") {
        reference.push(Reference {
            digest_method: method(node, "DigestMethod")?,
            digest_value: content(child(node, "DigestValue")?),
            id: named(node, "Id"),
            uri: named(node, "URI"),
            reference_type: node.attribute("Type").map(|t| t.to_string()),
        });
    }
    let qualifying = inside(signature, &["Object", "QualifyingProperties"])?;
    let signed = child(qualifying, "SignedProperties")?;
    let properties = child(signed, "SignedSignatureProperties")?;
    let cert = inside(properties, &["SigningCertificate", "Cert"])?;
    let about_data = child(signed, "SignedDataObjectProperties")?;
    let mut data_object_format = Vec::new();
    for node in about_data.children().filter(|n| n.tag_name().name() == "DataObjectFormat") {
        data_object_format.push(DataObjectFormat {
            mime_type: content(child(node, "MimeType")?),
            object_reference: named(node, "ObjectReference"),
        });
    }
    let unsigned_properties = match child(qualifying, "UnsignedProperties") {
        Err(_) => None,
        Ok(node) => {
            let added = child(node, "UnsignedSignatureProperties")?;
            let stamp = child(added, "SignatureTimeStamp")?;
            Some(UnsignedProperties {
                unsigned_signature_properties: UnsignedSignatureProperties {
                    signature_time_stamp: Some(SignatureTimeStamp {
                        canonicalization_method: method(stamp, "CanonicalizationMethod")?,
                        encapsulated_time_stamp: content(child(stamp, "EncapsulatedTimeStamp")?),
                        id: named(stamp, "Id"),
                    }),
                    certificate_values: inside(
                        added,
                        &["CertificateValues", "EncapsulatedX509Certificate"],
                    )
                    .ok()
                    .map(|n| CertificateValues { encapsulated_x509_certificate: value(n) }),
                    revocation_values: inside(
                        added,
                        &["RevocationValues", "OCSPValues", "EncapsulatedOCSPValue"],
                    )
                    .ok()
                    .map(|n| RevocationValues {
                        ocsp_values: OcspValues { encapsulated_ocsp_value: value(n) },
                    }),
                },
            })
        }
    };
    Ok(XAdEsSignatures {
        xmlns_asic: "http://uri.etsi.org/02918/v1.2.1#".to_string(),
        xmlns_ds: "http://www.w3.org/2000/09/xmldsig#".to_string(),
        xmlns_xades: "http://uri.etsi.org/01903/v1.3.2#".to_string(),
        signature: Signature {
            id: named(signature, "Id"),
            signed_info: SignedInfo {
                canonicalization_method: method(info, "CanonicalizationMethod")?,
                signature_method: method(info, "SignatureMethod")?,
                reference,
            },
            signature_value: value(child(signature, "SignatureValue")?),
            key_info: KeyInfo {
                x509_data: X509Data {
                    x509_certificate: content(inside(
                        signature,
                        &["KeyInfo", "X509Data", "X509Certificate"],
                    )?),
                },
            },
            object: Object {
                qualifying_properties: QualifyingProperties {
                    target: named(qualifying, "Target"),
                    unsigned_properties,
                    signed_properties: SignedProperties {
                        id: named(signed, "Id"),
                        signed_signature_properties: SignedSignatureProperties {
                            signing_time: content(child(properties, "SigningTime")?),
                            signing_certificate: SigningCertificate {
                                cert: Cert {
                                    cert_digest: CertDigest {
                                        digest_method: method(
                                            child(cert, "CertDigest")?,
                                            "DigestMethod",
                                        )?,
                                        digest_value: content(inside(
                                            cert,
                                            &["CertDigest", "DigestValue"],
                                        )?),
                                    },
                                    issuer_serial: IssuerSerial {
                                        x509_issuer_name: content(inside(
                                            cert,
                                            &["IssuerSerial", "X509IssuerName"],
                                        )?),
                                        x509_serial_number: content(inside(
                                            cert,
                                            &["IssuerSerial", "X509SerialNumber"],
                                        )?),
                                    },
                                },
                            },
                        },
                        signed_data_object_properties: SignedDataObjectProperties {
                            data_object_format,
                        },
                    },
                },
            },
        },
    })
}

fn read_manifest(text: &str) -> DigiDocManifest {
    let document = Document::parse(text).unwrap();
    let ns = "urn:oasis:names:tc:opendocument:xmlns:manifest:1.0";
    let file_entries = document
        .root_element()
        .children()
        .map(|n| FileEntry {
            full_path: n.attribute((ns, "full-path")).unwrap().to_string(),
            media_type: n.attribute((ns, "media-type")).unwrap().to_string(),
        })
        .collect();
    DigiDocManifest { manifest: FileEntriesManifest { file_entries } }
}

fn read_text(zip: &mut ZipArchive<Cursor<Vec<u8>>>, name: &str) -> Result<String, String> {
    let mut text = String::new();
    zip.by_name(name).map_err(|e| e.to_string())?.read_to_string(&mut text).unwrap();
    Ok(text)
}

fn read_bytes(zip: &mut ZipArchive<Cursor<Vec<u8>>>, name: &str) -> Result<Vec<u8>, String> {
    let mut content = Vec::new();
    zip.by_name(name).map_err(|e| e.to_string())?.read_to_end(&mut content).unwrap();
    Ok(content)
}

fn read_contents(zip: &mut ZipArchive<Cursor<Vec<u8>>>) -> ContainerContents {
    let manifest = read_manifest(&read_text(zip, "META-INF/manifest.xml").unwrap());
    let data = manifest
        .manifest
        .file_entries
        .iter()
        .map(|entry| read_bytes(zip, &entry.full_path))
        .collect();
    let mut signatures = Vec::new();
    for i in 0..zip.len() {
        let mut entry = zip.by_index(i).unwrap();
        if is_signature_entry(&entry.name().unwrap(), entry.is_file()) {
            let mut content = String::new();
            entry.read_to_string(&mut content).unwrap();
            let parsed = read_records(&content);
            signatures.push(SignatureDocument { content, parsed });
        }
    }
    ContainerContents { mimetype: read_text(zip, "mimetype"), manifest, data, signatures }
}

fn validate(contents: &ContainerContents) -> DigiDocValidationResult {
    DigiDocReader::new("container.asice").parse_document(contents)
}

/// A container with one file and one signature.
fn signed_contents(input: DigiDocSignerInput) -> ContainerContents {
    let builder = DigiDocBuilder::new()
        .add_file_content("test.txt".to_string(), b"hello world".to_vec(), "text/plain")
        .add_signer(input);
    read_contents(&mut build_archive(&builder))
}

fn test_file() -> Vec<DigiDocFile> {
    vec![DigiDocFile {
        name: "test.txt".to_string(),
        content: b"hello world".to_vec(),
        mime_type: "text/plain".to_string(),
    }]
}

#[test]
fn container_starts_with_uncompressed_mimetype_entry() {
    let mut zip = build_container(&[("request.xml", b"<doc/>", "application/xml")], vec![]);

    let first_name = zip.by_index(0).unwrap().name().unwrap().into_owned();
    assert_eq!(first_name, "mimetype");
    let mut entry = zip.by_index(0).unwrap();
    assert_eq!(
        entry.compression(),
        CompressionMethod::Stored,
        "mimetype must be stored uncompressed"
    );
    let mut bytes = Vec::new();
    entry.read_to_end(&mut bytes).unwrap();
    assert_eq!(bytes, b"application/vnd.etsi.asic-e+zip");
}

#[test]
fn container_writes_data_files_verbatim() {
    let payload: Vec<u8> = (0u8..=255).collect();
    let mut zip =
        build_container(&[("payload.bin", &payload, "application/octet-stream")], vec![]);
    let mut entry = zip.by_name("payload.bin").expect("data file present");
    let mut bytes = Vec::new();
    entry.read_to_end(&mut bytes).unwrap();
    assert_eq!(bytes, payload);
}

#[test]
fn container_emits_manifest_listing_data_files_only() {
    let mut zip = build_container(
        &[
            ("request.xml", b"<a/>", "application/xml"),
            ("attachment.pdf", b"%PDF", "application/pdf"),
        ],
        vec![],
    );
    let mut entry = zip.by_name("META-INF/manifest.xml").expect("manifest present");
    let mut s = String::new();
    entry.read_to_string(&mut s).unwrap();

    assert!(s.contains("manifest:full-path=\"request.xml\""));
    assert!(s.contains("manifest:media-type=\"application/xml\""));
    assert!(s.contains("manifest:full-path=\"attachment.pdf\""));
    assert!(s.contains("manifest:media-type=\"application/pdf\""));
    assert!(
        !s.contains("full-path=\"mimetype\""),
        "manifest must not list the mimetype file: {}",
        s
    );
    assert!(!s.contains("META-INF/"), "manifest must not list META-INF/* entries: {}", s);
}

#[test]
fn container_writes_one_signatures_xml_per_signature() {
    let sig0 = sample_signature();
    let mut sig1 = sample_signature();
    sig1.certificate = vec![0xCCu8; 32];
    sig1.signature_value = vec![0xDDu8; 64];
    let mut zip = build_container(
        &[("request.xml", b"<a/>", "application/xml")],
        vec![sig0.clone(), sig1.clone()],
    );

    for (idx, sig) in [&sig0, &sig1].iter().enumerate() {
        let path = format!("META-INF/signatures{}.xml", idx);
        let mut entry =
            zip.by_name(&path).unwrap_or_else(|_| panic!("expected {} in archive", path));
        let mut s = String::new();
        entry.read_to_string(&mut s).unwrap();

        assert!(
            s.contains(&format!("Id=\"S{}\"", idx)),
            "signatures{}.xml should declare Id=\"S{}\", got: {}",
            idx,
            idx,
            s
        );
        let cert_b64 = STANDARD.encode(&sig.certificate);
        let sig_b64 = STANDARD.encode(&sig.signature_value);
        assert!(
            s.contains(&cert_b64),
            "signatures{}.xml should embed the certificate in base64",
            idx
        );
        assert!(
            s.contains(&sig_b64),
            "signatures{}.xml should embed the signature value in base64",
            idx
        );
    }
}

#[test]
fn container_omits_signatures_directory_when_no_signatures_added() {
    let mut zip = build_container(&[("request.xml", b"<a/>", "application/xml")], vec![]);

    let n = zip.len();
    for i in 0..n {
        let entry = zip.by_index(i).unwrap();
        assert!(
            !entry.name().unwrap().starts_with("META-INF/signatures"),
            "no signatures*.xml entry should appear without signatures, got: {}",
            entry.name().unwrap()
        );
    }
}

#[test]
fn add_file_reads_from_disk_and_preserves_bytes() {
    let builder = DigiDocBuilder::new()
        .add_file(Some("upload.txt"), b"on-disk-payload".to_vec(), "text/plain")
        .expect("add_file");
    let mut zip = build_archive(&builder);
    let mut entry = zip.by_name("upload.txt").expect("disk-backed file present");
    let mut bytes = Vec::new();
    entry.read_to_end(&mut bytes).unwrap();
    assert_eq!(bytes, b"on-disk-payload");
}

#[test]
fn file_without_a_name_is_refused() {
    let refused = DigiDocBuilder::default().add_file(None, Vec::new(), "text/plain");
    assert_eq!(refused.err().unwrap(), "Invalid file name");
}

#[test]
fn sign_verify_roundtrip() {
    let signer = SigningKeyType::Rsa(bytes(RSA_KEY));
    let now = chrono::Utc::now();

    let builder = DigiDocBuilder::new()
        .add_file_content("test.txt".to_string(), b"hello world".to_vec(), "text/plain")
        .add_signer(DigiDocSignerInput {
            signer: Box::new(signer),
            certificate_der: bytes(RSA_CERTIFICATE),
            signing_time: Timestamp::from_timestamp(now.timestamp(), now.timestamp_subsec_nanos())
                .unwrap(),
            production_place: None,
            claimed_roles: Vec::new(),
            tsa_url: None,
            ocsp_url: None,
            issuer_cert_der: None,
        });

    let mut archive = build_archive(&builder);
    let contents = read_contents(&mut archive);
    let res = DigiDocReader::new("container.asice").parse_document(&contents);
    assert!(res.is_valid, "Validation failed: {:?}", res.validation_errors);
    assert_eq!(res.signatures.len(), 1);
    assert!(res.signatures[0].is_valid);
}

#[test]
fn entries_are_laid_out_in_order() {
    let builder = DigiDocBuilder::new()
        .add_file_content("b.txt".to_string(), b"B".to_vec(), "text/plain")
        .add_file_content("a.txt".to_string(), b"A".to_vec(), "text/plain")
        .add_signature(sample_signature())
        .add_signer(rsa_input());
    assert_eq!(builder.signer_count(), 1);
    assert_eq!(builder.signer_number(0), 1);
    let entries = builder.create_container(&vec!["<signed/>".to_string()]);
    let names: Vec<&str> = entries.iter().map(|e| e.name.as_str()).collect();
    assert_eq!(
        names,
        [
            "mimetype",
            "b.txt",
            "a.txt",
            "META-INF/manifest.xml",
            "META-INF/signatures0.xml",
            "META-INF/signatures1.xml",
        ]
    );
    assert_eq!(
        entries.iter().map(|e| e.compressed).collect::<Vec<_>>(),
        [false, true, true, true, true, true]
    );
    assert_eq!(entries[1].content, b"B");
    assert_eq!(entries[5].content, b"<signed/>");
}

#[test]
fn manifest_is_written() {
    let builder = DigiDocBuilder::new().add_file_content(
        "a&b \"c\".txt".to_string(),
        Vec::new(),
        "text/plain",
    );
    assert_eq!(
        builder.create_manifest(),
        "<?xml version=\"1.0\" encoding=\"UTF-8\"?>\n\
         <manifest:manifest xmlns:manifest=\"urn:oasis:names:tc:opendocument:xmlns:manifest:1.0\">\
         <manifest:file-entry manifest:full-path=\"/\" \
         manifest:media-type=\"application/vnd.etsi.asic-e+zip\"/>\
         <manifest:file-entry manifest:full-path=\"a&amp;b &quot;c&quot;.txt\" \
         manifest:media-type=\"text/plain\"/></manifest:manifest>"
    );
}

#[test]
fn template_documents_are_filled_in() {
    let xml = create_signature_xml(&sample_signature(), 3);
    let document = Document::parse(&xml).unwrap();
    let signature = child(document.root_element(), "Signature").unwrap();
    assert_eq!(named(signature, "Id"), "S3");
    assert_eq!(
        content(child(signature, "SignatureValue").unwrap()),
        STANDARD.encode([0xBBu8; 64])
    );
    assert!(xml.contains("URI=\"#SP3\""));
    assert!(xml.contains("Target=\"#S3\""));
    assert!(xml.contains("<xades:SignedProperties Id=\"SP3\">"));
    assert!(xml.contains("<xades:SigningTime>2026-01-15T12:00:00+00:00</xades:SigningTime>"));
    assert!(xml.starts_with(TEMPLATE_START));
    assert!(xml.ends_with(TEMPLATE_END));
}

#[test]
fn signature_is_reported() {
    let res = validate(&signed_contents(rsa_input()));
    assert!(res.is_valid, "{:?}", res.validation_errors);
    assert!(res.validation_errors.is_empty());
    // The manifest lists the container itself, which is no file.
    assert_eq!(res.validation_warnings.len(), 1);
    assert!(res.validation_warnings[0].starts_with("Could not read file /: "));
    assert_eq!(res.files.len(), 1);
    assert_eq!(res.files[0].name, "test.txt");
    assert_eq!(res.files[0].content, b"hello world");
    assert_eq!(res.files[0].mime_type, "text/plain");
    let signature = &res.signatures[0];
    assert_eq!(signature.certificate, bytes(RSA_CERTIFICATE));
    assert_eq!(signature.signature_value.len(), 256);
    assert_eq!(signature.signing_time.timestamp(), 1_768_478_400);
    assert_eq!(
        signature.signature_algorithm,
        "http://www.w3.org/2001/04/xmldsig-more#rsa-sha256"
    );
    assert_eq!(signature.digest_algorithm, "http://www.w3.org/2001/04/xmlenc#sha256");
    let signer = &signature.signer_info;
    assert_eq!(signer.common_name, "Test Signer");
    assert_eq!(signer.serial_number, "1234ABCD");
    assert_eq!(signer.issuer, "C=EE, O=Example, CN=Test Signer");
    assert_eq!(signer.subject, "C=EE, O=Example, CN=Test Signer");
    assert_eq!(signer.not_before.to_rfc3339(), "2020-01-01T00:00:00+00:00");
    assert_eq!(signer.not_after.to_rfc3339(), "2120-01-01T00:00:00+00:00");
}

#[test]
fn ecdsa_signature_is_accepted() {
    let key = SigningKeyType::P256(bytes(P256_KEY));
    let res = validate(&signed_contents(signer_input(key, P256_CERTIFICATE)));
    assert!(res.is_valid, "{:?}", res.validation_errors);
    assert_eq!(res.signatures[0].signer_info.common_name, "Curve Signer");
}

#[test]
fn koblitz_signature_is_accepted() {
    let input = signer_input(SigningKeyType::K256(bytes(K256_KEY)), K256_CERTIFICATE);
    let mut contents = signed_contents(input);
    let res = validate(&contents);
    assert!(res.is_valid, "{:?}", res.validation_errors);
    assert_eq!(res.signatures[0].signer_info.common_name, "Koblitz Signer");
    contents.data[1] = Ok(b"hello worlds".to_vec());
    let res = validate(&contents);
    assert!(!res.is_valid);
    assert_eq!(res.validation_errors, ["Signature by Koblitz Signer is invalid"]);
}

#[test]
fn koblitz_signature_values_are_checked() {
    let signer = SigningKeyType::K256(bytes(K256_KEY));
    let key = signer.verifying_key().ok().unwrap();
    let bes = basic_signature(&signer_input(signer, K256_CERTIFICATE));
    let value = read_records(&bes.xml).ok().unwrap().signature.signature_value.text;
    let check = |value_bytes: &[u8], key: &PublicKeyType| {
        let xml = bes.xml.replace(&value, &STANDARD.encode(value_bytes));
        let resolver = |_: &str| -> Result<Vec<u8>, SignatureError> { Ok(b"hello world".to_vec()) };
        verify_signature(xml.as_bytes(), key, Some(resolver)).map_err(|e| e.to_string())
    };
    let mismatch = "Cryptographic signature check failed: Signature mismatch".to_string();
    let made = bytes(&value);
    assert_eq!(check(&made, &key), Ok(()));
    // The order of the curve without the second number is as good a second number.
    let order = bytes("/////////////////////rqu3OavSKA7v9JejNA2QUE=");
    let mut other = made.clone();
    let mut borrow = 0i16;
    for i in (0..32).rev() {
        let d = i16::from(order[i]) - i16::from(made[32 + i]) - borrow;
        borrow = i16::from(d < 0);
        other[32 + i] = d.rem_euclid(256) as u8;
    }
    assert_ne!(other, made);
    assert_eq!(check(&other, &key), Ok(()));
    let mut wrong = made.clone();
    wrong[40] ^= 1;
    assert_eq!(check(&wrong, &key), Err(mismatch));
    assert!(check(&made[1..], &key)
        .unwrap_err()
        .starts_with("Cryptographic signature check failed: "));
    let no_key = PublicKeyType::K256(vec![1, 2, 3]);
    assert!(check(&made, &no_key)
        .unwrap_err()
        .starts_with("Cryptographic signature check failed: "));
    // The key goes with SHA-256 only.
    let p256_key = SigningKeyType::P256(bytes(P256_KEY)).verifying_key().ok().unwrap();
    assert!(check(&made, &p256_key).is_err());
    let method = "http://www.w3.org/2001/04/xmldsig-more#ecdsa-sha";
    let xml = bes.xml.replace(&format!("{}256", method), &format!("{}384", method));
    let resolver = |_: &str| -> Result<Vec<u8>, SignatureError> { Ok(b"hello world".to_vec()) };
    assert!(matches!(
        verify_signature(xml.as_bytes(), &key, Some(resolver)),
        Err(SignatureError::CryptoVerificationError(_))
    ));
}

#[test]
fn small_rsa_keys_sign_though_the_check_does_not_take_them() {
    let signer = SigningKeyType::Rsa(bytes(SMALL_RSA_KEY));
    let made = signer.sign(b"data").ok().unwrap();
    assert_eq!(made.len(), 128);
    let private_key = RsaPrivateKey::from_pkcs8_der(&bytes(SMALL_RSA_KEY)).unwrap();
    let verifier = VerifyingKey::<Sha256>::new(private_key.to_public_key());
    let signature = RsaSignature::try_from(made.as_slice()).unwrap();
    assert!(verifier.verify(b"data", &signature).is_ok());
    assert!(verifier.verify(b"other", &signature).is_err());
    let key = signer.verifying_key().ok().unwrap();
    let bes = basic_signature(&signer_input(signer, RSA_CERTIFICATE));
    let resolver = |_: &str| -> Result<Vec<u8>, SignatureError> { Ok(b"hello world".to_vec()) };
    assert!(matches!(
        verify_signature(bes.xml.as_bytes(), &key, Some(resolver)),
        Err(SignatureError::CryptoVerificationError(_))
    ));
}

#[test]
fn altered_file_makes_the_signature_invalid() {
    let mut contents = signed_contents(rsa_input());
    contents.data[1] = Ok(b"hello worlds".to_vec());
    let res = validate(&contents);
    assert!(!res.is_valid);
    assert!(!res.signatures[0].is_valid);
    assert_eq!(res.validation_errors, ["Signature by Test Signer is invalid"]);
}

/// A container with two files and two signatures.
fn contents_with_two_files() -> ContainerContents {
    let builder = DigiDocBuilder::new()
        .add_file_content("b & c.txt".to_string(), b"hello world".to_vec(), "text/plain")
        .add_file_content("a.bin".to_string(), vec![0, 255, 7], "application/octet-stream")
        .add_signer(rsa_input())
        .add_signer(signer_input(SigningKeyType::P256(bytes(P256_KEY)), P256_CERTIFICATE));
    read_contents(&mut build_archive(&builder))
}

#[test]
fn several_files_are_signed_and_read_back() {
    let contents = contents_with_two_files();
    for document in &contents.signatures {
        let signature = &document.parsed.as_ref().ok().unwrap().signature;
        let properties = &signature.object.qualifying_properties.signed_properties;
        let formats = &properties.signed_data_object_properties.data_object_format;
        let types: Vec<&str> = formats.iter().map(|f| f.mime_type.as_str()).collect();
        assert_eq!(types, ["text/plain", "application/octet-stream"]);
        assert_eq!(signature.signed_info.reference.len(), 3);
    }
    let res = validate(&contents);
    assert!(res.is_valid, "{:?}", res.validation_errors);
    assert_eq!(res.signatures.len(), 2);
    assert!(res.signatures.iter().all(|s| s.is_valid));
    assert!(res.validation_errors.is_empty());
    let files: Vec<(&str, &[u8], &str)> = res
        .files
        .iter()
        .map(|f| (f.name.as_str(), f.content.as_slice(), f.mime_type.as_str()))
        .collect();
    assert_eq!(
        files,
        [
            ("b & c.txt", &b"hello world"[..], "text/plain"),
            ("a.bin", &[0, 255, 7][..], "application/octet-stream"),
        ]
    );
}

#[test]
fn altering_one_of_several_files_breaks_every_signature() {
    for i in 1..3 {
        let mut contents = contents_with_two_files();
        contents.data[i] = Ok(b"hello worlds".to_vec());
        let res = validate(&contents);
        assert!(!res.is_valid);
        assert_eq!(res.signatures.len(), 2);
        assert!(res.signatures.iter().all(|s| !s.is_valid));
        assert_eq!(
            res.validation_errors,
            ["Signature by Test Signer is invalid", "Signature by Curve Signer is invalid"]
        );
        assert_eq!(res.files.len(), 2);
    }
}

#[test]
fn only_files_that_were_found_are_reported() {
    let mut contents = contents_with_two_files();
    contents.data[1] = Err("gone".to_string());
    let res = validate(&contents);
    assert!(!res.is_valid);
    let names: Vec<&str> = res.files.iter().map(|f| f.name.as_str()).collect();
    assert_eq!(names, ["a.bin"]);
    assert_eq!(res.validation_warnings.len(), 2);
    assert_eq!(res.validation_warnings[1], "Could not read file b & c.txt: gone");
}

#[test]
fn signatures_can_be_added_to_the_unsigned_entries() {
    let builder = DigiDocBuilder::new()
        .add_file_content("test.txt".to_string(), b"hello world".to_vec(), "text/plain")
        .add_signature(sample_signature())
        .add_signer(rsa_input());
    let mut entries = builder.unsigned_entries();
    let names: Vec<&str> = entries.iter().map(|e| e.name.as_str()).collect();
    assert_eq!(
        names,
        ["mimetype", "test.txt", "META-INF/manifest.xml", "META-INF/signatures0.xml"]
    );
    entries.push(signature_file(builder.signer_number(0), "<signed/>"));
    let all = builder.create_container(&vec!["<signed/>".to_string()]);
    assert_eq!(entries.len(), all.len());
    for (a, b) in entries.iter().zip(&all) {
        assert_eq!((&a.name, &a.content, a.compressed), (&b.name, &b.content, b.compressed));
    }
    assert_eq!(all[4].name, "META-INF/signatures1.xml");
}

#[test]
fn signatures_have_the_length_of_their_keys() {
    for (key, length) in [
        (SigningKeyType::Rsa(bytes(RSA_KEY)), 256),
        (SigningKeyType::P256(bytes(P256_KEY)), 64),
        (SigningKeyType::K256(bytes(K256_KEY)), 64),
    ] {
        let signature = key.sign(b"data").ok().unwrap();
        assert_eq!(signature.len(), length);
        assert_eq!(key.sign(b"data").ok().unwrap(), signature);
        assert_ne!(key.sign(b"other").ok().unwrap(), signature);
    }
}

#[test]
fn missing_file_makes_the_signature_invalid() {
    let mut contents = signed_contents(rsa_input());
    contents.data[1] = Err("gone".to_string());
    let res = validate(&contents);
    assert!(!res.is_valid);
    assert_eq!(res.files.len(), 0);
    assert_eq!(res.validation_warnings[1], "Could not read file test.txt: gone");
    assert_eq!(res.validation_errors, ["Signature by Test Signer is invalid"]);
}

#[test]
fn other_certificate_makes_the_signature_invalid() {
    let key = SigningKeyType::Rsa(bytes(RSA_KEY));
    let res = validate(&signed_contents(signer_input(key, P256_CERTIFICATE)));
    assert_eq!(res.validation_errors, ["Signature by Curve Signer is invalid"]);
}

#[test]
fn unsigned_container_is_not_valid() {
    let mut zip = build_container(&[("a.txt", b"A", "text/plain")], vec![]);
    let res = validate(&read_contents(&mut zip));
    assert!(!res.is_valid);
    assert!(res.validation_errors.is_empty());
    assert!(res.signatures.is_empty());
}

#[test]
fn media_type_is_checked() {
    let mut contents = signed_contents(rsa_input());
    contents.mimetype = Ok("application/zip".to_string());
    let res = validate(&contents);
    assert!(!res.is_valid);
    assert!(res.signatures[0].is_valid);
    assert_eq!(res.validation_errors, ["Unsupported document with mimetype: application/zip"]);
    contents.mimetype = Err("not there".to_string());
    assert_eq!(validate(&contents).validation_errors, ["Missing mimetype file: not there"]);
}

#[test]
fn signing_time_must_lie_in_the_validity_period() {
    let key = SigningKeyType::Rsa(bytes(RSA_KEY));
    let mut early = signer_input(key.clone(), RSA_CERTIFICATE);
    early.signing_time = time("2019-12-31T23:59:59.999Z");
    let res = validate(&signed_contents(early));
    assert!(!res.is_valid);
    assert!(res.signatures[0].is_valid);
    assert_eq!(
        res.validation_errors,
        ["Certificate not yet valid at signing time for Test Signer"]
    );

    let late = signer_input(key.clone(), OLD_CERTIFICATE);
    let res = validate(&signed_contents(late));
    assert_eq!(
        res.validation_errors,
        ["Certificate expired at signing time for Old Signer"]
    );

    // Archived documents stay valid after the certificate has expired.
    let mut then = signer_input(key, OLD_CERTIFICATE);
    then.signing_time = time("2010-06-01T00:00:00Z");
    assert!(validate(&signed_contents(then)).is_valid);
}

#[test]
fn unreadable_signature_documents_are_reported() {
    let mut contents = signed_contents(rsa_input());
    contents.signatures.push(SignatureDocument {
        content: "<nothing/>".to_string(),
        parsed: Err("missing Signature".to_string()),
    });
    let res = validate(&contents);
    assert!(!res.is_valid);
    assert_eq!(res.signatures.len(), 1);
    assert!(res.signatures[0].is_valid);
    assert_eq!(res.validation_errors, ["Failed to parse signature: missing Signature"]);
}

#[test]
fn parts_of_a_signature_document_are_checked() {
    let parse = |change: fn(&mut Signature)| {
        let mut contents = signed_contents(rsa_input());
        let document = contents.signatures.pop().unwrap();
        let mut records = document.parsed.unwrap();
        change(&mut records.signature);
        parse_signature(&document.content, &records)
    };
    assert!(parse(|_| {}).is_ok());
    assert_eq!(
        parse(|s| s.key_info.x509_data.x509_certificate = "*".to_string()).unwrap_err(),
        STANDARD.decode("*").unwrap_err().to_string()
    );
    let no_certificate = parse(|s| s.key_info.x509_data.x509_certificate = "AAAA".to_string());
    assert_eq!(no_certificate.unwrap_err(), parse_certificate(&[0, 0, 0]).unwrap_err());
    assert_eq!(
        parse(|s| s.signature_value.text = "AA=A".to_string()).unwrap_err(),
        STANDARD.decode("AA=A").unwrap_err().to_string()
    );
    let no_time = parse(|s| {
        let properties = &mut s.object.qualifying_properties.signed_properties;
        properties.signed_signature_properties.signing_time = "noon".to_string();
    });
    assert_eq!(
        no_time.unwrap_err(),
        format!(
            "Failed to parse signing time: {}",
            chrono::DateTime::parse_from_rfc3339("noon").unwrap_err()
        )
    );
    assert_eq!(parse(|s| s.signed_info.reference.clear()).unwrap().digest_algorithm, "unknown");
}

#[test]
fn times_out_of_the_calendar_are_invalid() {
    assert_eq!(x509_time_to_chrono(0).unwrap().timestamp(), 0);
    assert_eq!(x509_time_to_chrono(i64::MAX).unwrap_err(), "Invalid timestamp");
}

#[test]
fn common_name_is_the_first_with_a_value() {
    let mut certificate = parse_certificate(&bytes(RSA_CERTIFICATE)).unwrap();
    assert_eq!(extract_common_name(&certificate), "Test Signer");
    let attribute = |kind: &str, value: Option<&str>| NameAttribute {
        kind: kind.to_string(),
        value: value.map(|v| v.to_string()),
    };
    certificate.subject_attributes = vec![
        vec![attribute("2.5.4.6", Some("EE")), attribute("2.5.4.3", None)],
        vec![attribute("2.5.4.3", Some("First"))],
        vec![attribute("2.5.4.3", Some("Second"))],
    ];
    assert_eq!(extract_common_name(&certificate), "First");
    let nameless = parse_certificate(&bytes(ED25519_CERTIFICATE)).unwrap();
    assert_eq!(extract_common_name(&nameless), "Unknown");
}

#[test]
fn keys_of_certificates_are_told_apart() {
    let key_of = |text: &str| certificate_key(&parse_certificate(&bytes(text)).unwrap());
    assert!(matches!(key_of(RSA_CERTIFICATE), Ok(PublicKeyType::Rsa(_))));
    assert!(matches!(key_of(P256_CERTIFICATE), Ok(PublicKeyType::P256(_))));
    assert!(matches!(key_of(K256_CERTIFICATE), Ok(PublicKeyType::K256(_))));
    assert_eq!(key_of(P384_CERTIFICATE).err().unwrap(), "Unsupported ECDSA curve: 1.3.132.0.34");
    assert_eq!(
        key_of(ED25519_CERTIFICATE).err().unwrap(),
        "Unsupported public key algorithm: 1.3.101.112"
    );

    let mut certificate = parse_certificate(&bytes(P256_CERTIFICATE)).unwrap();
    certificate.key_parameters = None;
    assert_eq!(certificate_key(&certificate).err().unwrap(), "ECDSA missing parameters");
    certificate.key_parameters = Some(Err("no OID".to_string()));
    assert_eq!(
        certificate_key(&certificate).err().unwrap(),
        "Failed to parse ECDSA curve OID: no OID"
    );
    for (algorithm, curve) in [
        ("1.2.840.113549.1.1.1", "1.2.840.10045.3.1.7"),
        ("1.2.840.10045.2.1", "1.2.840.10045.3.1.7"),
        ("1.2.840.10045.2.1", "1.3.132.0.10"),
    ] {
        certificate.fields.key_algorithm = algorithm.to_string();
        certificate.key_parameters = Some(Ok(curve.to_string()));
        certificate.fields.key = vec![1, 2, 3];
        assert!(certificate_key(&certificate).is_err());
    }
}

#[test]
fn keys_agree_with_their_certificates() {
    for (key, certificate) in [
        (SigningKeyType::Rsa(bytes(RSA_KEY)), RSA_CERTIFICATE),
        (SigningKeyType::P256(bytes(P256_KEY)), P256_CERTIFICATE),
        (SigningKeyType::K256(bytes(K256_KEY)), K256_CERTIFICATE),
    ] {
        let from_certificate =
            certificate_key(&parse_certificate(&bytes(certificate)).unwrap()).ok().unwrap();
        let own = key.verifying_key().ok().unwrap();
        match (own, from_certificate) {
            (PublicKeyType::Rsa(a), PublicKeyType::Rsa(b)) => assert_eq!(a, b),
            (PublicKeyType::P256(a), PublicKeyType::P256(b)) => assert_eq!(a, b),
            (PublicKeyType::K256(a), PublicKeyType::K256(b)) => assert_eq!(a, b),
            _ => panic!("keys of different kinds"),
        }
    }
}

#[test]
fn malformed_keys_are_refused() {
    for key in [
        SigningKeyType::Rsa(vec![1, 2, 3]),
        SigningKeyType::P256(vec![1, 2, 3]),
        SigningKeyType::K256(vec![1, 2, 3]),
    ] {
        assert!(matches!(key.sign(b"data"), Err(SignatureError::SigningError(_))));
        assert!(matches!(key.verifying_key(), Err(SignatureError::KeyParsingError(_))));
    }
    let key = SigningKeyType::Rsa(vec![1, 2, 3]);
    match (key.sign(b"data"), key.verifying_key()) {
        (Err(SignatureError::SigningError(a)), Err(SignatureError::KeyParsingError(b))) => {
            assert_eq!(a, b)
        }
        _ => panic!("a key that does not decode was taken"),
    }
}

#[test]
fn certificate_that_cannot_be_parsed_fails_validation() {
    let contents = signed_contents(rsa_input());
    let document = &contents.signatures[0];
    let mut info =
        parse_signature(&document.content, document.parsed.as_ref().ok().unwrap()).unwrap();
    let reader = DigiDocReader::new("container.asice");
    assert_eq!(reader.document_path(), "container.asice");
    assert_eq!(reader.validate_signature(&info, &test_file()), Ok(true));
    assert_eq!(reader.validate_signature(&info, &Vec::new()), Ok(false));
    info.certificate = vec![0, 0, 0];
    assert_eq!(
        reader.validate_signature(&info, &test_file()),
        Err(parse_certificate(&[0, 0, 0]).unwrap_err())
    );
}

#[test]
fn files_are_found_by_name() {
    let mut files = test_file();
    files.push(DigiDocFile {
        name: "test.txt".to_string(),
        content: b"second".to_vec(),
        mime_type: "text/plain".to_string(),
    });
    assert_eq!(resolve_file(&files, "test.txt").unwrap(), b"hello world");
    assert_eq!(resolve_file(&files, "##test.txt").unwrap(), b"hello world");
    match resolve_file(&files, "#other.txt") {
        Err(SignatureError::ReferenceNotFound(uri)) => assert_eq!(uri, "#other.txt"),
        _ => panic!("found what is not there"),
    }
}

#[test]
fn signature_entries_are_told_by_name() {
    assert!(is_signature_entry("META-INF/signatures0.xml", true));
    assert!(is_signature_entry("META-INF/signatures", true));
    assert!(!is_signature_entry("META-INF/signatures0.xml", false));
    assert!(!is_signature_entry("META-INF/manifest.xml", true));
    assert!(!is_signature_entry("META-INF/signature", true));
    assert!(!is_signature_entry("", true));
}

fn basic_signature(input: &DigiDocSignerInput) -> XadesBesResult {
    let files = [XadesDataFile {
        uri: "test.txt",
        mime_type: "text/plain",
        content: b"hello world",
    }];
    build_xades_basic_signature(&XadesSignatureInputs {
        signer: &input.signer,
        certificate_der: &input.certificate_der,
        signing_time: input.signing_time,
        data_files: &files,
        index: 2,
        production_place: Some(XadesProductionPlace {
            city: Some("Tallinn"),
            country_name: Some("EE"),
            ..Default::default()
        }),
        claimed_roles: &["Author", "R&D"],
    })
    .ok()
    .unwrap()
}

#[test]
fn basic_signature_holds_its_parts() {
    let bes = basic_signature(&rsa_input());
    assert_eq!(bes.signature_id, "S2");
    let records = read_records(&bes.xml).ok().unwrap();
    let signature = records.signature;
    assert_eq!(signature.id, "S2");
    let references = &signature.signed_info.reference;
    assert_eq!(references.len(), 2);
    assert_eq!(references[0].uri, "test.txt");
    assert_eq!(references[0].digest_value, "uU0nuZNNPgilLlLX2n2r+sSE7+N6U4DukIj3rOLvzek=");
    assert_eq!(references[1].uri, "#SP2-SignedProperties");
    assert_eq!(
        references[1].reference_type.as_deref(),
        Some("http://uri.etsi.org/01903#SignedProperties")
    );
    let qualifying = signature.object.qualifying_properties;
    assert_eq!(qualifying.target, "#S2");
    let cert = qualifying.signed_properties.signed_signature_properties.signing_certificate.cert;
    assert_eq!(cert.issuer_serial.x509_serial_number, "305441741");
    assert_eq!(cert.issuer_serial.x509_issuer_name, "C=EE, O=Example, CN=Test Signer");
    let document = Document::parse(&bes.xml).unwrap();
    let text_of = |name: &str| {
        document
            .descendants()
            .filter(|n| n.tag_name().name() == name)
            .map(content)
            .collect::<Vec<_>>()
    };
    assert_eq!(text_of("City"), ["Tallinn"]);
    assert_eq!(text_of("CountryName"), ["EE"]);
    assert!(text_of("PostalCode").is_empty());
    assert_eq!(text_of("ClaimedRole"), ["Author", "R&D"]);
    assert_eq!(text_of("MimeType"), ["text/plain"]);
    let canonical = String::from_utf8(bes.signature_value_canonical).unwrap();
    assert!(canonical.starts_with("<ds:SignatureValue "));
    assert!(canonical.contains("Id=\"S2-SIG\""));
    assert!(canonical.contains(&signature.signature_value.text));
}

#[test]
fn basic_signature_document_is_written_out() {
    let bes = basic_signature(&rsa_input());
    let sha256 = |data: &[u8]| STANDARD.encode(Sha256::digest(data));
    let namespaces = "xmlns:asic=\"http://uri.etsi.org/02918/v1.2.1#\" \
                      xmlns:ds=\"http://www.w3.org/2000/09/xmldsig#\" \
                      xmlns:xades=\"http://uri.etsi.org/01903/v1.3.2#\"";
    let digest_method =
        "<ds:DigestMethod Algorithm=\"http://www.w3.org/2001/04/xmlenc#sha256\"/>";
    let properties = format!(
        "<xades:SignedProperties {} Id=\"SP2-SignedProperties\">\
         <xades:SignedSignatureProperties>\
         <xades:SigningTime>2026-01-15T12:00:00+00:00</xades:SigningTime>\
         <xades:SigningCertificate><xades:Cert><xades:CertDigest>{}\
         <ds:DigestValue>{}</ds:DigestValue></xades:CertDigest><xades:IssuerSerial>\
         <ds:X509IssuerName>C=EE, O=Example, CN=Test Signer</ds:X509IssuerName>\
         <ds:X509SerialNumber>305441741</ds:X509SerialNumber></xades:IssuerSerial></xades:Cert>\
         </xades:SigningCertificate><xades:SignatureProductionPlace><xades:City>Tallinn</xades:City>\
         <xades:CountryName>EE</xades:CountryName></xades:SignatureProductionPlace>\
         <xades:SignerRole><xades:ClaimedRoles><xades:ClaimedRole>Author</xades:ClaimedRole>\
         <xades:ClaimedRole>R&amp;D</xades:ClaimedRole></xades:ClaimedRoles></xades:SignerRole>\
         </xades:SignedSignatureProperties><xades:SignedDataObjectProperties>\
         <xades:DataObjectFormat ObjectReference=\"#S2-RefId0\">\
         <xades:MimeType>text/plain</xades:MimeType></xades:DataObjectFormat>\
         </xades:SignedDataObjectProperties></xades:SignedProperties>",
        namespaces,
        digest_method,
        sha256(&bytes(RSA_CERTIFICATE))
    );
    let algorithm = C14nAlgorithm::new(C14nMode::Inclusive1_0, false);
    let canonical_properties = canonicalize_xml(properties.as_bytes(), &algorithm).unwrap();
    let signed_info = format!(
        "<ds:SignedInfo {}><ds:CanonicalizationMethod \
         Algorithm=\"http://www.w3.org/TR/2001/REC-xml-c14n-20010315\"/><ds:SignatureMethod \
         Algorithm=\"http://www.w3.org/2001/04/xmldsig-more#rsa-sha256\"/>\
         <ds:Reference Id=\"S2-RefId0\" URI=\"test.txt\">{}<ds:DigestValue>{}</ds:DigestValue>\
         </ds:Reference><ds:Reference Id=\"S2-SignedPropertiesRef\" \
         Type=\"http://uri.etsi.org/01903#SignedProperties\" URI=\"#SP2-SignedProperties\">{}\
         <ds:DigestValue>{}</ds:DigestValue></ds:Reference></ds:SignedInfo>",
        namespaces,
        digest_method,
        sha256(b"hello world"),
        digest_method,
        sha256(&canonical_properties)
    );
    let canonical_info = canonicalize_xml(signed_info.as_bytes(), &algorithm).unwrap();
    let key = SigningKeyType::Rsa(bytes(RSA_KEY));
    let value = STANDARD.encode(key.sign(&canonical_info).ok().unwrap());
    let expected = format!(
        "<?xml version=\"1.0\" encoding=\"UTF-8\"?><asic:XAdESSignatures {}>\
         <ds:Signature Id=\"S2\">{}<ds:SignatureValue Id=\"S2-SIG\">{}</ds:SignatureValue>\
         <ds:KeyInfo><ds:X509Data><ds:X509Certificate>{}</ds:X509Certificate></ds:X509Data>\
         </ds:KeyInfo><ds:Object><xades:QualifyingProperties Target=\"#S2\">{}\
         </xades:QualifyingProperties></ds:Object></ds:Signature></asic:XAdESSignatures>",
        namespaces, signed_info, value, RSA_CERTIFICATE, properties
    );
    assert_eq!(bes.xml, expected);
    assert_eq!(
        String::from_utf8(bes.signature_value_canonical).unwrap(),
        format!("<ds:SignatureValue {} Id=\"S2-SIG\">{}</ds:SignatureValue>", namespaces, value)
    );
}

#[test]
fn certificate_that_is_none_is_refused() {
    let mut input = rsa_input();
    input.certificate_der = vec![0, 0, 0];
    let builder = DigiDocBuilder::new().add_signer(input);
    let refused = builder.build_xades_signature(builder.signer_input(0), 0);
    match refused {
        Err(e) => assert!(e.starts_with("xades signature build: "), "{}", e),
        Ok(_) => panic!("no certificate, but a signature"),
    }
}

#[test]
fn upgrades_add_unsigned_properties_only() {
    let bes = basic_signature(&rsa_input());
    let t_level = upgrade_xades_bes_to_t(&bes, b"token").unwrap();
    let stamp = "<xades:SignatureTimeStamp Id=\"S2-T0\"><ds:CanonicalizationMethod \
                 Algorithm=\"http://www.w3.org/TR/2001/REC-xml-c14n-20010315\"/>\
                 <xades:EncapsulatedTimeStamp>dG9rZW4=</xades:EncapsulatedTimeStamp>\
                 </xades:SignatureTimeStamp>";
    let wrapped = |inner: &str| {
        format!(
            "<xades:UnsignedProperties><xades:UnsignedSignatureProperties>{}\
             </xades:UnsignedSignatureProperties></xades:UnsignedProperties>",
            inner
        )
    };
    assert_eq!(t_level.replace(&wrapped(stamp), ""), bes.xml);
    let lt_level = upgrade_xades_t_to_lt(&t_level, "S2", b"issuer", b"response").unwrap();
    let more = "<xades:CertificateValues><xades:EncapsulatedX509Certificate Id=\"S2-CA-CERT\">\
                aXNzdWVy</xades:EncapsulatedX509Certificate></xades:CertificateValues>\
                <xades:RevocationValues><xades:OCSPValues><xades:EncapsulatedOCSPValue Id=\"N2\">\
                cmVzcG9uc2U=</xades:EncapsulatedOCSPValue></xades:OCSPValues>\
                </xades:RevocationValues>";
    let all = format!("{}{}", stamp, more);
    assert_eq!(lt_level.replace(&wrapped(&all), ""), bes.xml);
    let records = read_records(&lt_level).ok().unwrap();
    let added = records.signature.object.qualifying_properties.unsigned_properties.unwrap();
    let added = added.unsigned_signature_properties;
    assert_eq!(added.signature_time_stamp.unwrap().encapsulated_time_stamp, "dG9rZW4=");
    assert_eq!(added.certificate_values.unwrap().encapsulated_x509_certificate.id, "S2-CA-CERT");
    assert_eq!(added.revocation_values.unwrap().ocsp_values.encapsulated_ocsp_value.id, "N2");
    // The signature covers none of this.
    for xml in [&bes.xml, &t_level, &lt_level] {
        assert!(verify_signature(
            xml.as_bytes(),
            &rsa_public_key(),
            Some(|_: &str| Ok(b"hello world".to_vec()))
        )
        .is_ok());
    }
}

#[test]
fn upgrades_need_their_places() {
    let bes = XadesBesResult {
        xml: "<a/>".to_string(),
        signature_id: "S0".to_string(),
        signature_value_canonical: Vec::new(),
    };
    assert_eq!(
        upgrade_xades_bes_to_t(&bes, b"token").unwrap_err().to_string(),
        "XML structure error: BES XML missing </xades:QualifyingProperties>"
    );
    assert_eq!(
        upgrade_xades_t_to_lt("<a/>", "S0", b"issuer", b"response").unwrap_err().to_string(),
        "XML structure error: T-level XML missing </xades:UnsignedSignatureProperties>"
    );
}

#[test]
fn signing_goes_through_its_steps() {
    let mut input = rsa_input();
    input.tsa_url = Some("https://tsa.example/".to_string());
    input.ocsp_url = Some("https://ocsp.example/".to_string());
    assert_eq!(issuer_certificate(&input), bytes(RSA_CERTIFICATE));
    input.issuer_cert_der = Some(b"issuer".to_vec());
    assert_eq!(issuer_certificate(&input), b"issuer");
    let builder = DigiDocBuilder::new()
        .add_file_content("test.txt".to_string(), b"hello world".to_vec(), "text/plain")
        .add_signer(input);
    let input = builder.signer_input(0);
    let start = || match builder.build_xades_signature(input, 0) {
        Ok(SigningStep::Timestamp { url, bes }) => {
            assert_eq!(url, "https://tsa.example/");
            bes
        }
        _ => panic!("a timestamp is wanted"),
    };
    let failed = || SignatureError::GeneralError("down".to_string());
    match continue_with_timestamp(input, start(), Err(failed())) {
        Err(e) => assert_eq!(e, "TSA timestamp fetch: General error: down"),
        Ok(_) => panic!("no timestamp, but a step"),
    }
    let (id, t_level) = match continue_with_timestamp(input, start(), Ok(b"token".to_vec())) {
        Ok(SigningStep::Revocation { url, signature_id, t_level_xml }) => {
            assert_eq!(url, "https://ocsp.example/");
            (signature_id, t_level_xml)
        }
        _ => panic!("an OCSP response is wanted"),
    };
    assert_eq!(id, "S0");
    match continue_with_revocation(input, &id, &t_level, Err(failed())) {
        Err(e) => assert_eq!(e, "OCSP fetch: General error: down"),
        Ok(_) => panic!("no response, but a step"),
    }
    match continue_with_revocation(input, &id, "<a/>", Ok(b"response".to_vec())) {
        Err(e) => assert!(e.starts_with("xades-LT upgrade: XML structure error: "), "{}", e),
        Ok(_) => panic!("no place for the response"),
    }
    let done = match continue_with_revocation(input, &id, &t_level, Ok(b"response".to_vec())) {
        Ok(SigningStep::Done(xml)) => xml,
        _ => panic!("the signature is done"),
    };
    let expected = upgrade_xades_t_to_lt(&t_level, "S0", b"issuer", b"response").unwrap();
    assert_eq!(done, expected);

    let entries = builder.create_container(&vec![done]);
    let mut zip = ZipArchive::new(Cursor::new(write_archive(&entries))).unwrap();
    let res = validate(&read_contents(&mut zip));
    assert!(res.is_valid, "{:?}", res.validation_errors);
}

#[test]
fn timestamp_alone_ends_the_signing() {
    let mut input = rsa_input();
    input.tsa_url = Some("https://tsa.example/".to_string());
    let builder = DigiDocBuilder::new().add_signer(input);
    let bes = match builder.build_xades_signature(builder.signer_input(0), 0) {
        Ok(SigningStep::Timestamp { bes, .. }) => bes,
        _ => panic!("a timestamp is wanted"),
    };
    match continue_with_timestamp(builder.signer_input(0), bes, Ok(b"token".to_vec())) {
        Ok(SigningStep::Done(xml)) => assert!(xml.contains("dG9rZW4=")),
        _ => panic!("the signature is done"),
    }
}

#[test]
fn revocation_data_need_a_timestamp() {
    let mut input = rsa_input();
    input.ocsp_url = Some("https://ocsp.example/".to_string());
    let builder = DigiDocBuilder::new().add_signer(input);
    match builder.build_xades_signature(builder.signer_input(0), 0) {
        Ok(SigningStep::Done(xml)) => assert!(!xml.contains("UnsignedProperties")),
        _ => panic!("the signature is done"),
    }
}

#[test]
fn ocsp_request_is_about_the_certificate() {
    let subject = bytes(P256_CERTIFICATE);
    let issuer = bytes(RSA_CERTIFICATE);
    let parsed = parse_certificate(&issuer).unwrap();
    let expected =
        ocsp_request_for(&parsed.fields.raw_subject, &parsed.fields.key, &[0x02]);
    assert_eq!(build_ocsp_request(&subject, &issuer).unwrap(), expected);
    let none = parse_certificate(b"none").unwrap_err();
    assert_eq!(
        build_ocsp_request(b"none", &issuer).unwrap_err().to_string(),
        format!("General error: OCSP: parse subject cert: {}", none)
    );
    assert_eq!(
        build_ocsp_request(&subject, b"none").unwrap_err().to_string(),
        format!("General error: OCSP: parse issuer cert: {}", none)
    );
}

fn rsa_public_key() -> PublicKeyType {
    SigningKeyType::Rsa(bytes(RSA_KEY)).verifying_key().ok().unwrap()
}

/// What `sign_enveloping` is tried on.
struct Payload {
    field: String,
}

impl Serialize for Payload {
    fn serialize<S: Serializer>(&self, serializer: S) -> Result<S::Ok, S::Error> {
        let mut s = serializer.serialize_struct("ds:Object", 3)?;
        s.serialize_field("@Id", "p1")?;
        s.serialize_field("@xmlns:ds", "http://www.w3.org/2000/09/xmldsig#")?;
        s.serialize_field("Field", &self.field)?;
        s.end()
    }
}

fn payload_object() -> String {
    let payload = Payload { field: "hello".to_string() };
    quick_xml::se::to_string(&payload).unwrap()
}

fn no_resolver() -> Option<fn(&str) -> Result<Vec<u8>, SignatureError>> {
    None
}

#[test]
fn test_sign_enveloping_round_trip() {
    let signer = SigningKeyType::Rsa(bytes(RSA_KEY));
    let public_key = rsa_public_key();
    let signed_xml = sign_enveloping(&payload_object(), "p1", &signer).unwrap();

    let verify_res = verify_signature(signed_xml.as_bytes(), &public_key, no_resolver());

    assert!(
        verify_res.is_ok(),
        "Verification failed: {:?}",
        verify_res.err().map(|e| e.to_string())
    );
}

#[test]
fn enveloping_signature_tells_its_key() {
    let signer = SigningKeyType::Rsa(bytes(RSA_KEY));
    let signed_xml = sign_enveloping(&payload_object(), "p1", &signer).unwrap();
    let document = Document::parse(&signed_xml).unwrap();
    let root = document.root_element();
    let numbers = inside(root, &["KeyInfo", "KeyValue", "RSAKeyValue"]).unwrap();
    assert_eq!(content(child(numbers, "Exponent").unwrap()), "AQAB");
    let modulus = bytes(&content(child(numbers, "Modulus").unwrap()));
    assert_eq!(modulus.len(), 256);
    // The certificate's key holds the same number.
    let key = parse_certificate(&bytes(RSA_CERTIFICATE)).unwrap().fields.key;
    assert!(key.windows(modulus.len()).any(|part| part == modulus));
    let object = inside(root, &["Object", "Field"]).unwrap();
    assert_eq!(content(object), "hello");
}

#[test]
fn altered_object_is_refused() {
    let signer = SigningKeyType::Rsa(bytes(RSA_KEY));
    let signed_xml = sign_enveloping(&payload_object(), "p1", &signer).unwrap();
    let altered = signed_xml.replace("hello", "jello");
    match verify_signature(altered.as_bytes(), &rsa_public_key(), no_resolver()) {
        Err(SignatureError::DigestMismatch(uri)) => assert_eq!(uri, "#p1"),
        _ => panic!("altered, but accepted"),
    }
}

#[test]
fn enveloping_signature_needs_an_rsa_key_and_its_object() {
    let curve = SigningKeyType::P256(bytes(P256_KEY));
    assert_eq!(
        sign_enveloping(&payload_object(), "p1", &curve).unwrap_err().to_string(),
        "Unsupported algorithm or key type: Only RSA keys are supported for LHV Connect"
    );
    let signer = SigningKeyType::Rsa(bytes(RSA_KEY));
    assert!(sign_enveloping(&payload_object(), "other", &signer).is_err());
    assert!(matches!(
        sign_enveloping(&payload_object(), "p1", &SigningKeyType::Rsa(vec![1])),
        Err(SignatureError::KeyParsingError(_))
    ));
}

#[test]
fn rsa_keys_are_read_from_pem() {
    for text in [pem("PRIVATE KEY", RSA_KEY), pem("RSA PRIVATE KEY", RSA_KEY_PKCS1)] {
        match parse_rsa_private_key(&text) {
            Ok(SigningKeyType::Rsa(der)) => {
                let key = SigningKeyType::Rsa(der);
                let own = key.verifying_key().ok().unwrap();
                match (own, rsa_public_key()) {
                    (PublicKeyType::Rsa(a), PublicKeyType::Rsa(b)) => assert_eq!(a, b),
                    _ => panic!("no RSA key"),
                }
            }
            _ => panic!("no RSA key"),
        }
    }
    match parse_rsa_private_key("nothing") {
        Err(e) => assert!(e
            .to_string()
            .starts_with("Failed to parse key: Failed to parse RSA private key: ")),
        Ok(_) => panic!("a key from nothing"),
    }
}

fn refusal(xml: &str) -> String {
    verify_signature(xml.as_bytes(), &rsa_public_key(), no_resolver()).unwrap_err().to_string()
}

#[test]
fn documents_without_a_signature_are_refused() {
    assert!(refusal("<a>").starts_with("XML structure error: "));
    assert_eq!(refusal("<a/>"), "Missing required XML element or attribute: Signature");
    assert_eq!(
        refusal("<Signature/>"),
        "Missing required XML element or attribute: SignedInfo"
    );
    assert_eq!(
        refusal("<Signature><SignedInfo/></Signature>"),
        "Missing required XML element or attribute: SignatureValue"
    );
    assert!(refusal("<Signature><SignedInfo/><SignatureValue/></Signature>")
        .starts_with("XML structure error: "));
    let not_text = verify_signature(&[0xff], &rsa_public_key(), no_resolver());
    assert!(matches!(not_text, Err(SignatureError::StrUtf8Error(_))));
}

#[test]
fn references_and_values_are_checked_in_turn() {
    let bes = basic_signature(&rsa_input());
    let key = rsa_public_key();
    let check = |xml: &str, data: Result<&[u8], &str>| {
        let answer = data.map(|d| d.to_vec()).map_err(|e| e.to_string());
        let resolver = |uri: &str| -> Result<Vec<u8>, SignatureError> {
            assert_eq!(uri, "test.txt");
            answer.clone().map_err(SignatureError::GeneralError)
        };
        verify_signature(xml.as_bytes(), &key, Some(resolver)).map_err(|e| e.to_string())
    };
    let good: Result<&[u8], &str> = Ok(b"hello world");
    assert_eq!(check(&bes.xml, good), Ok(()));
    assert_eq!(check(&bes.xml, Err("gone")), Err("General error: gone".to_string()));
    assert_eq!(
        check(&bes.xml, Ok(b"other")),
        Err("Digest verification failed for reference URI 'test.txt'".to_string())
    );
    assert_eq!(
        refusal(&bes.xml),
        "Could not find referenced data for URI: External URI 'test.txt' needs resolver"
    );
    let properties = bes.xml.replace("Tallinn", "Tartu");
    assert_eq!(
        check(&properties, good),
        Err("Digest verification failed for reference URI '#SP2-SignedProperties'".to_string())
    );
    let lost = bes.xml.replace("Id=\"SP2-SignedProperties\"", "Id=\"elsewhere\"");
    assert!(check(&lost, good)
        .unwrap_err()
        .starts_with("Could not find referenced data for URI: ID lookup failed for #SP2-SignedProperties: "));
    let records = read_records(&bes.xml).ok().unwrap();
    let value = records.signature.signature_value.text;
    let broken = bes.xml.replace(&value, "*");
    assert!(check(&broken, good).unwrap_err().starts_with("Failed to encode/decode Base64: "));
    let empty = bes.xml.replace(&value, "");
    assert_eq!(
        check(&empty, good),
        Err("Missing required XML element or attribute: SignatureValue text content".to_string())
    );
    let spaced = bes.xml.replace(&value, &format!("\n {} \t{}", &value[..10], &value[10..]));
    assert_eq!(check(&spaced, good), Ok(()));
    let other = bes.xml.replace(&value, &STANDARD.encode([1u8; 256]));
    assert_eq!(
        check(&other, good),
        Err("Cryptographic signature check failed: Signature mismatch".to_string())
    );
}

#[test]
fn other_digest_methods_are_known() {
    let bes = basic_signature(&rsa_input());
    let key = rsa_public_key();
    let sha256 = STANDARD.encode(Sha256::digest(b"hello world"));
    let with_digest = |method: &str, digest: &[u8]| {
        let xml = bes.xml.replace(
            &format!("#sha256\"/><ds:DigestValue>{}<", sha256),
            &format!("#sha256\"/><ds:DigestValue>{}<", STANDARD.encode(digest)),
        );
        let from = "URI=\"test.txt\"><ds:DigestMethod \
                    Algorithm=\"http://www.w3.org/2001/04/xmlenc#sha256\"";
        let to = format!("URI=\"test.txt\"><ds:DigestMethod Algorithm=\"{}\"", method);
        assert!(xml.contains(from));
        let resolver = |_: &str| -> Result<Vec<u8>, SignatureError> { Ok(b"hello world".to_vec()) };
        verify_signature(xml.replace(from, &to).as_bytes(), &key, Some(resolver))
            .unwrap_err()
            .to_string()
    };
    // The reference passes, and then the changed signed information fails.
    let passed = "Cryptographic signature check failed: Signature mismatch";
    let failed = "Digest verification failed for reference URI 'test.txt'";
    for (method, digest) in [
        ("http://www.w3.org/2000/09/xmldsig#sha1", Sha1::digest(b"hello world").to_vec()),
        ("http://www.w3.org/2001/04/xmldsig-more#sha384", Sha384::digest(b"hello world").to_vec()),
        ("http://www.w3.org/2001/04/xmlenc#sha512", Sha512::digest(b"hello world").to_vec()),
    ] {
        assert_eq!(with_digest(method, &digest), passed);
        let mut other = digest;
        other[0] ^= 1;
        assert_eq!(with_digest(method, &other), failed);
    }
    assert!(with_digest("urn:unknown", b"").starts_with("XML structure error: "));
}

#[test]
fn transforms_apply_to_external_data() {
    let bes = basic_signature(&rsa_input());
    let key = rsa_public_key();
    let xml = bes.xml.replace(
        "URI=\"test.txt\">",
        "URI=\"test.txt\"><ds:Transforms><ds:Transform \
         Algorithm=\"http://www.w3.org/TR/2001/REC-xml-c14n-20010315\"/></ds:Transforms>",
    );
    let resolver = |_: &str| -> Result<Vec<u8>, SignatureError> { Ok(b"hello world".to_vec()) };
    assert_eq!(
        verify_signature(xml.as_bytes(), &key, Some(resolver)).unwrap_err().to_string(),
        "Canonicalization error: type mismatch: expected NodeSet, got Binary"
    );
}

/// What a transform that removes all signatures holds.
const XPATH: &str = "<ds:XPath xmlns:dsig=\"http://www.w3.org/2000/09/xmldsig#\">\
    not(ancestor-or-self::dsig:Signature)</ds:XPath>";

/// What checking a signature comes to that stands under two `xml:base` values and refers to an
/// element by its id: `#o` stands under the first value, `#i` under both.
fn with_bases(outer: &str, inner: &str, method: &str, transforms: &[&str], uri: &str) -> String {
    let ds = "http://www.w3.org/2000/09/xmldsig#";
    let octets = format!("<o Id=\"o\" xml:base=\"{}\"></o>", outer);
    let transforms: String = transforms
        .iter()
        .map(|t| format!("<ds:Transform Algorithm=\"{}\">{}</ds:Transform>", t, XPATH))
        .collect();
    let xml = format!(
        "<r xml:base=\"{}\"><o Id=\"o\"/><s xml:base=\"{}\"><i Id=\"i\"/>\
         <ds:Signature Id=\"s\" xmlns:ds=\"{}\"><ds:SignedInfo>\
         <ds:CanonicalizationMethod Algorithm=\"{}\"/><ds:SignatureMethod \
         Algorithm=\"http://www.w3.org/2001/04/xmldsig-more#rsa-sha256\"/>\
         <ds:Reference URI=\"{}\"><ds:Transforms>{}</ds:Transforms>\
         <ds:DigestMethod Algorithm=\"http://www.w3.org/2001/04/xmlenc#sha256\"/>\
         <ds:DigestValue>{}</ds:DigestValue></ds:Reference></ds:SignedInfo>\
         <ds:SignatureValue>AA==</ds:SignatureValue></ds:Signature></s></r>",
        outer,
        inner,
        ds,
        method,
        uri,
        transforms,
        STANDARD.encode(Sha256::digest(octets.as_bytes()))
    );
    refusal(&xml)
}

#[test]
fn bases_outside_ascii_are_not_resolved() {
    let first = "http://www.w3.org/TR/2001/REC-xml-c14n-20010315";
    let second = "http://www.w3.org/2006/12/xml-c14n11";
    let with_comments = "http://www.w3.org/2006/12/xml-c14n11#WithComments";
    let refused = "Canonicalization error: xml:base starts with a character outside ASCII";
    let checked = "Cryptographic signature check failed: Signature mismatch";
    let enveloped = "http://www.w3.org/2000/09/xmldsig#enveloped-signature";
    let xpath = "http://www.w3.org/TR/1999/REC-xpath-19991116";
    assert_eq!(with_bases("a/", "é", second, &[first], "#o"), refused);
    assert_eq!(with_bases("a/", "é", with_comments, &[first], "#o"), refused);
    assert_eq!(with_bases("a/", "é", first, &[second], "#i"), refused);
    assert_eq!(with_bases("a/", "é", first, &[with_comments], "#i"), refused);
    assert_eq!(with_bases("a/", "é", first, &[enveloped, xpath, second], "#i"), refused);
    assert_eq!(with_bases("a/", "é", first, &[second], "#s"), refused);
    // What is not resolved may hold anything.
    assert_eq!(with_bases("a/", "é", first, &[first], "#o"), checked);
    assert_eq!(with_bases("a/", "é", first, &[second], "#o"), checked);
    assert_eq!(with_bases("é/", "b/", second, &[second], "#o"), checked);
    assert_eq!(with_bases("a/", "bé", second, &[second], "#o"), checked);
    assert_eq!(with_bases("a/", "", second, &[second], "#o"), checked);
    let other = "Digest verification failed for reference URI '#s'";
    assert_eq!(with_bases("a/", "é", first, &[enveloped, second], "#s"), other);
    assert_eq!(with_bases("a/", "é", first, &[xpath, second], "#s"), other);
    assert_eq!(
        with_bases("a/", "é", first, &[first, second], "#i"),
        "Canonicalization error: type mismatch: expected NodeSet, got Binary"
    );
    // A reference to nothing is told first.
    assert!(with_bases("a/", "é", second, &[second], "#none")
        .starts_with("Could not find referenced data for URI: ID lookup failed for #none: "));
}
