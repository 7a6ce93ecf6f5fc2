use stool::error::CliError;
use stool::pipeline::{extract, insert};
use stool::steg::SteganographyMethod;
use stool::util::image::Image;

#[test]
fn insert_extract_without_password() {
    let mut carrier = vec![0u8; 1000];
    insert(&mut carrier, b"secret!", None).unwrap();
    assert_eq!(extract(&carrier, None).unwrap(), b"secret!".to_vec());
}

#[test]
fn insert_extract_with_password() {
    let mut carrier: Vec<u8> = (0..400u32).map(|i| (i * 37 % 251) as u8).collect();
    insert(&mut carrier, b"secret!", Some("pass")).unwrap();
    assert_eq!(extract(&carrier, Some("pass")).unwrap(), b"secret!".to_vec());
    // without the password the sealed bytes come back
    assert_eq!(extract(&carrier, None).unwrap().len(), 12 + 7 + 16);
}

#[test]
fn extract_with_wrong_password_fails() {
    let mut carrier = vec![0u8; 1000];
    insert(&mut carrier, b"secret!", Some("correct")).unwrap();
    assert_eq!(extract(&carrier, Some("wrong")), Err(CliError::AuthenticationError));
}

#[test]
fn insert_checks_sealed_size() {
    // 7 secret bytes sealed are 35 bytes: 8 + 280 carrier bytes are needed
    let mut carrier = vec![0u8; 287];
    assert_eq!(insert(&mut carrier, b"secret!", Some("pass")), Err(CliError::CapacityExceeded));
    assert_eq!(carrier, vec![0u8; 287]);
    let mut carrier = vec![0u8; 288];
    insert(&mut carrier, b"secret!", Some("pass")).unwrap();
    assert_eq!(extract(&carrier, Some("pass")).unwrap(), b"secret!".to_vec());

    let mut big = vec![0u8; 100_000];
    assert_eq!(insert(&mut big, &[1u8; 228], Some("pass")), Err(CliError::CapacityExceeded));
    insert(&mut big, &[1u8; 227], Some("pass")).unwrap();
    assert_eq!(extract(&big, Some("pass")).unwrap(), vec![1u8; 227]);
    assert_eq!(insert(&mut big, &[1u8; 256], None), Err(CliError::CapacityExceeded));
}

#[test]
fn short_hidden_message_is_format_error() {
    let mut carrier = vec![0u8; 100];
    insert(&mut carrier, &[1, 2, 3], None).unwrap();
    assert_eq!(extract(&carrier, Some("pass")), Err(CliError::FormatError));
    assert_eq!(extract(&carrier[..7], None), Err(CliError::CapacityExceeded));
}

#[test]
fn method_names_parse_in_any_case() {
    assert_eq!(SteganographyMethod::parse("least_bit"), Some(SteganographyMethod::LeastBit));
    assert_eq!(SteganographyMethod::parse("LEAST_BIT"), Some(SteganographyMethod::LeastBit));
    assert_eq!(SteganographyMethod::parse("DcTc"), Some(SteganographyMethod::DCTC));
    assert_eq!(SteganographyMethod::parse("amend_zip"), Some(SteganographyMethod::AttachZip));
    assert_eq!(SteganographyMethod::parse("least-bit"), None);
    assert_eq!(SteganographyMethod::from_lowercase_name(b"LEAST_BIT"), None);
    assert_eq!(
        "Least_Bit".parse::<SteganographyMethod>(),
        Ok(SteganographyMethod::LeastBit)
    );
    assert_eq!(
        "zip".parse::<SteganographyMethod>(),
        Err("Invalid steganography method: zip".to_string())
    );
}

#[test]
fn image_keeps_buffer_and_size() {
    let img = Image::new(vec![1, 2, 3, 4], 1, 1);
    assert_eq!(img.buffer, vec![1, 2, 3, 4]);
    assert_eq!(img.dimensions, (1, 1));
}
