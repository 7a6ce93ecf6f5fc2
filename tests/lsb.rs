use image::{DynamicImage, ImageBuffer};
use rand::Rng;
use std::io::Cursor;
use stool::error::CliError;
use stool::steg::lsb::LeastBit;
use stool::steg::Steganography;
use stool::util::crypt::{decrypt_message, encrypt_message};

fn create_green_noise_png(width: u32, height: u32) -> Vec<u8> {
    let img = ImageBuffer::from_fn(width, height, |_, _| {
        let mut rng = rand::thread_rng();
        let green = rng.gen_range(0..=255);
        image::Rgb([0, green, 0])
    });

    let img = DynamicImage::ImageRgb8(img);
    let mut bytes: Vec<u8> = Vec::new();
    img.write_to(&mut Cursor::new(&mut bytes), image::ImageFormat::Png)
        .expect("No image for you!");
    bytes
}

fn lsb_value(carrier: &[u8], start: usize, n: usize) -> usize {
    let mut v = 0usize;
    for b in &carrier[start..start + n] {
        v = v * 2 + (b & 1) as usize;
    }
    v
}

#[test]
fn embed_lb() {
    let steg = LeastBit {};

    let mut experiment: Vec<u8> = create_green_noise_png(25, 25);
    let before = experiment.clone();

    steg.embed(&mut experiment, b"secret!").unwrap();

    assert_ne!(before, experiment);
}

#[test]
fn extract_lb() {
    let steg = LeastBit {};

    let mut experiment: Vec<u8> = create_green_noise_png(50, 50);
    steg.embed(&mut experiment, b"secret!").unwrap();
    let secret = steg.extract(&experiment).unwrap();

    assert_eq!(String::from_utf8(secret).unwrap(), "secret!");
}

#[test]
fn test_crypto() {
    let steg = LeastBit {};

    let mut experiment: Vec<u8> = create_green_noise_png(50, 50);

    let secret = encrypt_message("pass", "secret!").unwrap();
    steg.embed(&mut experiment, &secret).unwrap();
    let secret = steg.extract(&experiment).unwrap();
    let secret = decrypt_message("pass", &secret).unwrap();

    assert_eq!(String::from_utf8(secret).unwrap(), "secret!");
}

#[test]
fn zero_carrier_holds_secret_with_header_seven() {
    let steg = LeastBit;
    let mut carrier = vec![0u8; 1000];
    steg.embed(&mut carrier, b"secret!").unwrap();
    assert_eq!(lsb_value(&carrier, 0, 8), 7);
    assert_eq!(steg.extract(&carrier).unwrap(), b"secret!".to_vec());
    // only least significant bits change, and only in the first 64 bytes
    assert!(carrier.iter().all(|b| *b <= 1));
    assert!(carrier[64..].iter().all(|b| *b == 0));
    // 's' = 0x73 = 0111_0011
    assert_eq!(&carrier[8..16], &[0, 1, 1, 1, 0, 0, 1, 1]);
}

#[test]
fn embed_keeps_high_bits() {
    let steg = LeastBit;
    let mut carrier = vec![0xFEu8; 16];
    steg.embed(&mut carrier, &[0xFF]).unwrap();
    assert_eq!(&carrier[0..8], &[0xFE, 0xFE, 0xFE, 0xFE, 0xFE, 0xFE, 0xFE, 0xFF]);
    assert_eq!(&carrier[8..16], &[0xFF; 8]);
}

#[test]
fn five_bytes_need_forty_eight_carrier_bytes() {
    let steg = LeastBit;
    let secret = [1u8, 2, 3, 4, 5];
    let mut exact = vec![0x55u8; 48];
    steg.embed(&mut exact, &secret).unwrap();
    assert_eq!(steg.extract(&exact).unwrap(), secret.to_vec());

    let mut short = vec![0x55u8; 47];
    assert_eq!(steg.embed(&mut short, &secret), Err(CliError::CapacityExceeded));
    assert_eq!(short, vec![0x55u8; 47]);
}

#[test]
fn five_byte_carrier_rejects_five_byte_secret() {
    let steg = LeastBit;
    let mut carrier = vec![9u8; 5];
    assert_eq!(steg.embed(&mut carrier, &[1, 2, 3, 4, 5]), Err(CliError::CapacityExceeded));
    assert_eq!(carrier, vec![9u8; 5]);
}

#[test]
fn header_bounds_secret_length() {
    let steg = LeastBit;
    let mut carrier = vec![0u8; 100_000];
    let long = vec![7u8; 256];
    assert_eq!(steg.embed(&mut carrier, &long), Err(CliError::CapacityExceeded));
    assert!(carrier.iter().all(|b| *b == 0));

    let longest = vec![7u8; 255];
    steg.embed(&mut carrier, &longest).unwrap();
    assert_eq!(steg.extract(&carrier).unwrap(), longest);
}

#[test]
fn empty_secret_round_trips() {
    let steg = LeastBit;
    let mut carrier = vec![3u8; 8];
    steg.embed(&mut carrier, &[]).unwrap();
    assert_eq!(carrier, vec![2u8; 8]);
    assert_eq!(steg.extract(&carrier).unwrap(), Vec::<u8>::new());
}

#[test]
fn extract_rejects_short_carriers() {
    let steg = LeastBit;
    assert_eq!(steg.extract(&[1u8; 7]), Err(CliError::CapacityExceeded));
    // header declares one byte, but only four payload bytes follow
    let mut carrier = vec![0u8; 12];
    carrier[7] = 1;
    assert_eq!(steg.extract(&carrier), Err(CliError::CapacityExceeded));
    carrier.extend_from_slice(&[1, 0, 0, 1]);
    assert_eq!(steg.extract(&carrier).unwrap(), vec![0b0000_1001u8]);
}

#[test]
fn round_trip_over_random_carriers() {
    let steg = LeastBit;
    let mut rng = rand::thread_rng();
    for len in [0usize, 1, 7, 30, 100] {
        let secret: Vec<u8> = (0..len).map(|_| rng.gen()).collect();
        let mut carrier: Vec<u8> = (0..8 + 8 * len + rng.gen_range(0..20)).map(|_| rng.gen()).collect();
        let before = carrier.clone();
        steg.embed(&mut carrier, &secret).unwrap();
        assert_eq!(carrier.len(), before.len());
        for (a, b) in carrier.iter().zip(before.iter()) {
            assert_eq!(a >> 1, b >> 1);
        }
        assert_eq!(steg.extract(&carrier).unwrap(), secret);
    }
}
