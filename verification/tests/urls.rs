use otpcodes::credential::{Algorithm, Credential, Mode};
use otpcodes::error::{OtpError, ParamKey};
use otpcodes::parser::{credential_from_parts, parse, read_mode};
use otpcodes::url_parts::UrlParts;

#[test]
fn parse_reads_the_example_url() {
    let c = parse(
        "otpauth://totp/Example:alice@example.com?secret=JBSWY3DPEHPK3PXP&issuer=Example&digits=6",
    )
    .unwrap();
    assert_eq!(c.label().as_str(), "Example");
    assert_eq!(c.digits(), 6);
    assert_eq!(c.algorithm(), Algorithm::Sha1);
    assert_eq!(c.mode(), Mode::Totp);
    assert_eq!(c.period(), 30);
    assert_eq!(c.counter(), 0);
    assert_eq!(
        c.secret(),
        &vec![0x48, 0x65, 0x6c, 0x6c, 0x6f, 0x21, 0xde, 0xad, 0xbe, 0xef]
    );
}

#[test]
fn parse_applies_defaults() {
    let c = parse("otpauth://totp/someone?secret=MZXW6YTBOI").unwrap();
    let expected = Credential::new(
        "unknown".to_string(),
        b"foobar".to_vec(),
        Algorithm::Sha1,
        6,
        Mode::Totp,
        30,
        0,
    )
    .unwrap();
    assert_eq!(c, expected);
}

#[test]
fn parse_reads_every_parameter() {
    let c = parse(
        "otpauth://hotp/x?secret=mzxw6ytboi&issuer=A%20B&algorithm=sha512&digits=8&counter=42&period=0",
    )
    .unwrap();
    assert_eq!(c.label().as_str(), "A B");
    assert_eq!(c.algorithm(), Algorithm::Sha512);
    assert_eq!(c.digits(), 8);
    assert_eq!(c.mode(), Mode::Hotp);
    assert_eq!(c.counter(), 42);
    assert_eq!(c.period(), 30);

    let t = parse("otpauth://TOTP/x?secret=MZXW6YTBOI&algorithm=SHA256&period=60&counter=zz").unwrap();
    assert_eq!(t.algorithm(), Algorithm::Sha256);
    assert_eq!(t.mode(), Mode::Totp);
    assert_eq!(t.period(), 60);
    assert_eq!(t.counter(), 0);
}

#[test]
fn issuer_parameter_wins_over_the_path_label() {
    let c = parse("otpauth://totp/Other:bob?secret=MZXW6YTBOI&issuer=Example").unwrap();
    assert_eq!(c.label().as_str(), "Example");
}

#[test]
fn the_last_of_repeated_parameters_counts() {
    let c = parse("otpauth://totp/x?secret=MZXW6YTBOI&digits=7&digits=9").unwrap();
    assert_eq!(c.digits(), 9);
}

#[test]
fn parse_reports_malformed_urls() {
    assert_eq!(parse("not a url"), Err(OtpError::MalformedUrl));
    assert_eq!(parse(""), Err(OtpError::MalformedUrl));
}

#[test]
fn parse_reports_other_schemes() {
    assert_eq!(
        parse("https://totp/x?secret=MZXW6YTBOI"),
        Err(OtpError::UnsupportedScheme)
    );
}

#[test]
fn parse_reports_other_modes() {
    assert_eq!(
        parse("otpauth://motp/x?secret=MZXW6YTBOI"),
        Err(OtpError::UnsupportedMode)
    );
    assert_eq!(parse("otpauth:?secret=MZXW6YTBOI"), Err(OtpError::UnsupportedMode));
}

#[test]
fn parse_reports_a_missing_secret() {
    assert_eq!(parse("otpauth://totp/x?issuer=Example"), Err(OtpError::MissingSecret));
    assert_eq!(parse("otpauth://totp/x"), Err(OtpError::MissingSecret));
    assert_eq!(parse("otpauth://totp/x?secret="), Err(OtpError::MissingSecret));
}

#[test]
fn parse_reports_a_secret_that_is_not_base32() {
    assert_eq!(parse("otpauth://totp/x?secret=1O0%3D"), Err(OtpError::InvalidEncoding));
    assert_eq!(parse("otpauth://totp/x?secret=MZX"), Err(OtpError::InvalidEncoding));
}

#[test]
fn parse_names_the_offending_parameter() {
    assert_eq!(
        parse("otpauth://totp/x?secret=MZXW6YTBOI&algorithm=MD5"),
        Err(OtpError::InvalidParameter(ParamKey::Algorithm))
    );
    assert_eq!(
        parse("otpauth://totp/x?secret=MZXW6YTBOI&digits=six"),
        Err(OtpError::InvalidParameter(ParamKey::Digits))
    );
    assert_eq!(
        parse("otpauth://totp/x?secret=MZXW6YTBOI&digits=0"),
        Err(OtpError::InvalidParameter(ParamKey::Digits))
    );
    assert_eq!(
        parse("otpauth://totp/x?secret=MZXW6YTBOI&digits=11"),
        Err(OtpError::InvalidParameter(ParamKey::Digits))
    );
    assert_eq!(
        parse("otpauth://totp/x?secret=MZXW6YTBOI&period=0"),
        Err(OtpError::InvalidParameter(ParamKey::Period))
    );
    assert_eq!(
        parse("otpauth://totp/x?secret=MZXW6YTBOI&period=soon"),
        Err(OtpError::InvalidParameter(ParamKey::Period))
    );
    assert_eq!(
        parse("otpauth://hotp/x?secret=MZXW6YTBOI&counter=-1"),
        Err(OtpError::InvalidParameter(ParamKey::Counter))
    );
    assert_eq!(ParamKey::Counter.name(), "counter");
    assert_eq!(ParamKey::Algorithm.name(), "algorithm");
    assert_eq!(ParamKey::Digits.name(), "digits");
    assert_eq!(ParamKey::Period.name(), "period");
}

#[test]
fn the_mode_is_the_first_non_empty_segment() {
    let parts = UrlParts {
        scheme: "otpauth".to_string(),
        host: None,
        path: "//hotp/label/more".to_string(),
        query: vec![("secret".to_string(), "MY".to_string())],
    };
    assert_eq!(parts.first_path_segment(), "hotp");
    assert_eq!(parts.leading(), "hotp");
    assert_eq!(parts.find("secret"), Some(&"MY".to_string()));
    assert_eq!(parts.find("issuer"), None);
    let c = credential_from_parts(&parts).unwrap();
    assert_eq!(c.mode(), Mode::Hotp);
    assert_eq!(c.secret(), &b"f".to_vec());
    assert_eq!(read_mode("Totp"), Some(Mode::Totp));
    assert_eq!(read_mode("top"), None);

    let hosted = UrlParts {
        scheme: "otpauth".to_string(),
        host: Some("totp".to_string()),
        path: "/hotp".to_string(),
        query: vec![],
    };
    assert_eq!(hosted.leading(), "totp");
    assert_eq!(credential_from_parts(&hosted), Err(OtpError::MissingSecret));
}

#[test]
fn credentials_are_checked_when_built() {
    let make = |secret: &[u8], digits: u32, mode: Mode, period: u64| {
        Credential::new("l".to_string(), secret.to_vec(), Algorithm::Sha1, digits, mode, period, 0)
    };
    assert_eq!(make(b"", 6, Mode::Totp, 30), Err(OtpError::MissingSecret));
    assert_eq!(
        make(b"k", 0, Mode::Totp, 30),
        Err(OtpError::InvalidParameter(ParamKey::Digits))
    );
    assert_eq!(
        make(b"k", 11, Mode::Totp, 30),
        Err(OtpError::InvalidParameter(ParamKey::Digits))
    );
    assert_eq!(
        make(b"k", 10, Mode::Totp, 0),
        Err(OtpError::InvalidParameter(ParamKey::Period))
    );
    assert!(make(b"k", 10, Mode::Hotp, 0).is_ok());
    let c = make(b"k", 1, Mode::Totp, 1).unwrap();
    assert_eq!(c.clone(), c);
    assert_eq!(Algorithm::Sha1.tag_len(), 20);
    assert_eq!(Algorithm::Sha256.tag_len(), 32);
    assert_eq!(Algorithm::Sha512.tag_len(), 64);
}
