use imghash::{Error, CGImage};

fn gray_buffer(width: usize, height: usize, data: Vec<u8>) -> CGImage {
    CGImage::new(width, height, 1, data).unwrap()
}

#[test]
fn ahash_bits_matches_mean_comparison() {
    let data: Vec<u8> = (0..64).map(|i| (i as u8).wrapping_mul(4)).collect();
    let img = gray_buffer(8, 8, data.clone());
    let hash = img.ahash_bits().unwrap();
    let mean = data.iter().map(|d| *d as f32).sum::<f32>() / 64.0;
    for (i, v) in data.iter().enumerate() {
        let expected = (*v as f32) > mean;
        assert_eq!((hash >> i) & 1 == 1, expected, "bit {}", i);
    }
}

#[test]
fn ahash_single_flip_toggles_one_bit() {
    let mut data = vec![0u8; 64];
    for i in 0..32 {
        data[2 * i] = 255;
    }
    let before = gray_buffer(8, 8, data.clone()).ahash_bits().unwrap();
    // Sample 1 sits below the mean; raising it to 255 crosses the mean while
    // every other sample keeps its relationship to the mean.
    data[1] = 255;
    let after = gray_buffer(8, 8, data).ahash_bits().unwrap();
    assert_eq!(before ^ after, 1u64 << 1);
}

#[test]
fn dhash_bits_matches_neighbor_comparison() {
    let data: Vec<u8> = (0..72).map(|i| ((i * 37 + 11) % 251) as u8).collect();
    let img = gray_buffer(9, 8, data.clone());
    let hash = img.dhash_bits().unwrap();
    for r in 0..8 {
        for c in 0..8 {
            let expected = data[r * 9 + c] > data[r * 9 + c + 1];
            let idx = r * 8 + c;
            assert_eq!((hash >> idx) & 1 == 1, expected, "bit {}", idx);
        }
    }
}

#[test]
fn uniform_image_hashes_to_zero() {
    let ahash = gray_buffer(8, 8, vec![173u8; 64]).ahash_bits().unwrap();
    assert_eq!(ahash, 0);
    let dhash = gray_buffer(9, 8, vec![173u8; 72]).dhash_bits().unwrap();
    assert_eq!(dhash, 0);
}

#[test]
fn hashes_are_deterministic() {
    let data: Vec<u8> = (0..48).map(|i| ((i * 91 + 5) % 256) as u8).collect();
    let a = CGImage::new(4, 4, 3, data.clone()).unwrap();
    let b = CGImage::new(4, 4, 3, data).unwrap();
    assert_eq!(a.ahash().unwrap(), a.ahash().unwrap());
    assert_eq!(a.ahash().unwrap(), b.ahash().unwrap());
    assert_eq!(a.dhash().unwrap(), b.dhash().unwrap());
}

#[test]
fn resize_returns_exact_byte_count() {
    let img = gray_buffer(64, 64, vec![7u8; 64 * 64]);
    let small = img.resize(8, 8).unwrap();
    assert_eq!(small.width(), 8);
    assert_eq!(small.height(), 8);
    assert_eq!(small.components(), 1);
    assert_eq!(small.raw_data().len(), 64);
    let wide = img.resize(9, 8).unwrap();
    assert_eq!(wide.raw_data().len(), 72);
}

#[test]
fn resize_rejects_multicomponent() {
    let rgb = CGImage::new(2, 2, 3, vec![0u8; 12]).unwrap();
    assert_eq!(rgb.resize(8, 8).unwrap_err(), Error::UnsupportedColorModel);
    let gray_alpha = CGImage::new(2, 2, 2, vec![0u8; 8]).unwrap();
    assert_eq!(gray_alpha.resize(8, 8).unwrap_err(), Error::UnsupportedColorModel);
}

#[test]
fn resize_rejects_zero_canvas() {
    let img = gray_buffer(4, 4, vec![1u8; 16]);
    assert_eq!(img.resize(0, 8).unwrap_err(), Error::CanvasCreationFailed);
    assert_eq!(img.resize(8, 0).unwrap_err(), Error::CanvasCreationFailed);
}

#[test]
fn all_black_image_average_hash_zero() {
    let img = gray_buffer(64, 64, vec![0u8; 64 * 64]);
    // Grayscale conversion is a no-op copy, the 8x8 thumbnail is all zeros,
    // the mean is zero, and no sample exceeds it.
    let gray = img.to_grayscale();
    assert_eq!(gray.raw_data().as_slice(), &[0u8; 64 * 64][..]);
    assert_eq!(img.ahash().unwrap(), 0);
}

#[test]
fn gradient_difference_hash_zero() {
    // Nine columns rising left to right: no sample strictly exceeds its right
    // neighbour, so every comparison bit stays clear.
    let mut data = vec![0u8; 72];
    for r in 0..8 {
        for c in 0..9 {
            data[r * 9 + c] = (c as u8) * 28;
        }
    }
    let img = gray_buffer(9, 8, data);
    assert_eq!(img.dhash().unwrap(), 0);
}

#[test]
fn checkerboard_average_hash_sets_bright_cells() {
    let mut data = vec![0u8; 64];
    let mut expected = 0u64;
    for r in 0..8 {
        for c in 0..8 {
            if (r + c) % 2 == 1 {
                data[r * 8 + c] = 255;
                expected |= 1u64 << (r * 8 + c);
            }
        }
    }
    // The mean is 127.5: exactly the 255-valued cells exceed it.
    let img = gray_buffer(8, 8, data);
    assert_eq!(img.ahash().unwrap(), expected);
}

#[test]
fn extractors_reject_wrong_shapes() {
    let small = gray_buffer(4, 4, vec![0u8; 16]);
    assert_eq!(small.ahash_bits().unwrap_err(), Error::BufferSizeMismatch);
    assert_eq!(small.dhash_bits().unwrap_err(), Error::BufferSizeMismatch);
    let eight = gray_buffer(8, 8, vec![0u8; 64]);
    assert_eq!(eight.dhash_bits().unwrap_err(), Error::BufferSizeMismatch);
    let rgb = CGImage::new(8, 8, 3, vec![0u8; 192]).unwrap();
    assert_eq!(rgb.ahash_bits().unwrap_err(), Error::UnsupportedColorModel);
}

#[test]
fn new_validates_layout() {
    assert_eq!(
        CGImage::new(2, 2, 0, vec![]).unwrap_err(),
        Error::UnsupportedColorModel
    );
    assert_eq!(
        CGImage::new(2, 2, 5, vec![0u8; 20]).unwrap_err(),
        Error::UnsupportedColorModel
    );
    assert_eq!(
        CGImage::new(2, 2, 1, vec![0u8; 5]).unwrap_err(),
        Error::BufferSizeMismatch
    );
    assert_eq!(
        CGImage::new(0, 2, 1, vec![]).unwrap_err(),
        Error::BufferSizeMismatch
    );
    let ok = CGImage::new(2, 2, 1, vec![9u8; 4]).unwrap();
    assert_eq!(ok.width(), 2);
    assert_eq!(ok.height(), 2);
    assert_eq!(ok.components(), 1);
}

#[test]
fn grayscale_uses_bt601_luma() {
    let data = vec![
        255, 0, 0, // red -> 76
        0, 255, 0, // green -> 149
        0, 0, 255, // blue -> 29
        255, 255, 255, // white -> 255
    ];
    let img = CGImage::new(4, 1, 3, data).unwrap();
    let gray = img.to_grayscale();
    assert_eq!(gray.components(), 1);
    assert_eq!(gray.width(), 4);
    assert_eq!(gray.height(), 1);
    assert_eq!(gray.raw_data().as_slice(), &[76, 149, 29, 255][..]);
}

#[test]
fn grayscale_ignores_alpha_and_keeps_intensity() {
    let two = CGImage::new(2, 1, 2, vec![10, 200, 30, 0]).unwrap();
    assert_eq!(two.to_grayscale().raw_data().as_slice(), &[10, 30][..]);
    let four = CGImage::new(1, 1, 4, vec![255, 0, 0, 17]).unwrap();
    assert_eq!(four.to_grayscale().raw_data().as_slice(), &[76][..]);
    let one = CGImage::new(2, 2, 1, vec![1, 2, 3, 4]).unwrap();
    assert_eq!(one.to_grayscale().raw_data().as_slice(), &[1, 2, 3, 4][..]);
}

#[test]
fn resize_picks_nearest_neighbor_samples() {
    let data: Vec<u8> = (0..16).collect();
    let img = gray_buffer(4, 4, data);
    let half = img.resize(2, 2).unwrap();
    // Output (r, c) takes source (r * 4 / 2, c * 4 / 2).
    assert_eq!(half.raw_data().as_slice(), &[0, 2, 8, 10][..]);
    let up = gray_buffer(1, 1, vec![42]).resize(3, 2).unwrap();
    assert_eq!(up.raw_data().as_slice(), &[42, 42, 42, 42, 42, 42][..]);
}
