use strolle::bindings::{Access, Binding, Resource};
use strolle::math::{UVec2, Vec3};
use strolle::noise::{LdsBlueNoise, Noise, NoiseError, WhiteNoise};

#[test]
fn tables_have_the_sizes_of_the_sampler() {
    let noise = Noise::new();
    assert_eq!(noise.sobol_table().len(), 256 * 256);
    assert_eq!(noise.scrambling_tile_table().len(), 128 * 128 * 8);
    assert_eq!(noise.ranking_tile_table().len(), 128 * 128 * 8);
    assert_eq!(&noise.sobol_table()[..4], &[32, 226, 72, 70]);
    assert_eq!(&noise.scrambling_tile_table()[..4], &[34, 84, 55, 60]);
    assert_eq!(&noise.ranking_tile_table()[..4], &[1, 1, 0, 0]);
}

#[test]
fn bindings_name_the_noise_resources() {
    let noise = Noise::new();
    assert_eq!(
        noise.bind_blue_noise(),
        Binding { resource: Resource::BlueNoise, access: Access::Readable }
    );
    assert_eq!(noise.bind_blue_noise_sobol().resource, Resource::BlueNoiseSobol);
    assert_eq!(noise.bind_blue_noise_scrambling_tile().resource, Resource::BlueNoiseScramblingTile);
    assert_eq!(noise.bind_blue_noise_ranking_tile().resource, Resource::BlueNoiseRankingTile);
}

#[test]
fn flush_rejects_bytes_that_are_no_image() {
    let mut noise = Noise::new();
    let r = noise.flush(&[1, 2, 3]);
    assert!(matches!(r, Err(NoiseError::Undecodable)));
    assert!(!noise.is_flushed());
}

#[test]
fn white_noise_first_draw_from_zero_state() {
    let mut noise = WhiteNoise::new(0, UVec2::new(0, 0));
    assert_eq!(noise.state, 0);
    let v = noise.sample_int();
    assert_eq!(noise.state, 2891336453);
    let state: u32 = 2891336453;
    let word = ((state >> ((state >> 28) + 4)) ^ state).wrapping_mul(277803737);
    assert_eq!(v, (word >> 22) ^ word);
}

fn encoded(width: u32, height: u32) -> (Vec<u8>, Vec<u8>) {
    let img = image::RgbaImage::from_fn(width, height, |x, y| {
        image::Rgba([x as u8, y as u8, (x ^ y) as u8, 255])
    });
    let raw = img.as_raw().clone();
    let mut bytes = Vec::new();
    image::DynamicImage::ImageRgba8(img)
        .write_to(&mut std::io::Cursor::new(&mut bytes), image::ImageOutputFormat::Png)
        .unwrap();
    (bytes, raw)
}

#[test]
fn flush_hands_out_the_decoded_texture_once() {
    let (bytes, raw) = encoded(256, 256);
    let mut noise = Noise::new();
    let upload = noise.flush(&bytes).unwrap().unwrap();
    assert_eq!(upload.texture.data, raw);
    assert_eq!(upload.texture.data.len(), 256 * 256 * 4);
    assert_eq!(upload.texture.resource, Resource::BlueNoise);
    assert_eq!(upload.texture.mip_level, 0);
    assert_eq!(upload.texture.origin, (0, 0, 0));
    assert_eq!(upload.texture.offset, 0);
    assert_eq!(upload.texture.bytes_per_row, Some(1024));
    assert_eq!(upload.texture.rows_per_image, None);
    assert_eq!(upload.texture.extent, (256, 256, 1));
    assert!(upload.sobol && upload.scrambling_tile && upload.ranking_tile);
    assert!(noise.is_flushed());
    // the second time nothing is handed out, and the image is not even looked at
    assert!(matches!(noise.flush(&bytes), Ok(None)));
    assert!(matches!(noise.flush(&[0, 1, 2]), Ok(None)));
    assert!(matches!(noise.flush_decoded(None), Ok(None)));
}

#[test]
fn flush_rejects_an_image_of_another_size() {
    let (bytes, _) = encoded(2, 2);
    let mut noise = Noise::new();
    assert!(matches!(noise.flush(&bytes), Err(NoiseError::WrongSize)));
    assert!(!noise.is_flushed());
    assert!(matches!(noise.flush_decoded(Some(vec![0; 262143])), Err(NoiseError::WrongSize)));
    assert!(matches!(noise.flush_decoded(None), Err(NoiseError::Undecodable)));
    // after a failure a good image still goes through
    let (bytes, _) = encoded(256, 256);
    assert!(matches!(noise.flush(&bytes), Ok(Some(_))));
}

#[test]
fn flush_rejects_an_image_without_alpha() {
    let img = image::RgbImage::from_fn(256, 256, |x, y| image::Rgb([x as u8, y as u8, 0]));
    let mut bytes = Vec::new();
    image::DynamicImage::ImageRgb8(img)
        .write_to(&mut std::io::Cursor::new(&mut bytes), image::ImageOutputFormat::Png)
        .unwrap();
    let mut noise = Noise::new();
    assert!(matches!(noise.flush(&bytes), Err(NoiseError::Undecodable)));
}

#[test]
fn blue_noise_samples_follow_the_tables() {
    let noise = Noise::new();
    assert_eq!(noise.sample(UVec2::new(0, 0), 0, 0), 157);
    assert_eq!(noise.sample(UVec2::new(1, 0), 0, 0), 188);
    assert_eq!(noise.sample(UVec2::new(5, 9), 3, 2), 176);
    assert_eq!(noise.sample(UVec2::new(127, 127), 255, 7), 96);
    // pixel, sample and dimension wrap around
    assert_eq!(noise.sample(UVec2::new(128, 0), 0, 0), 157);
    assert_eq!(noise.sample(UVec2::new(300, 77), 1000, 13), 6);
    assert_eq!(noise.sample(UVec2::new(300, 77), 1000, 13), noise.sample(UVec2::new(44, 77), 232, 13));
    let (sobol, scrambling, ranking) =
        (noise.sobol_table(), noise.scrambling_tile_table(), noise.ranking_tile_table());
    for (x, y, index, dimension) in [(3u32, 4u32, 5u32, 6u32), (100, 20, 77, 200), (64, 64, 128, 9)] {
        let tile = (((x & 127) + (y & 127) * 128) * 8 + (dimension & 7)) as usize;
        let ranked = ((index & 255) ^ ranking[tile] as u32) as usize;
        let expected = sobol[(dimension & 255) as usize + ranked * 256] ^ scrambling[tile];
        assert_eq!(noise.sample(UVec2::new(x, y), index, dimension) as i32, expected);
    }
}

#[test]
fn white_noise_follows_its_recurrence() {
    let mut noise = WhiteNoise::new(0, UVec2::new(0, 0));
    assert_eq!(noise.sample_int(), 129708002);
    assert_eq!(noise.state, 2891336453);
    assert_eq!(noise.sample_int(), 582399676);
    assert_eq!(noise.state, 1192405134);
    assert_eq!(noise.sample_int(), 1006035121);
    assert_eq!(WhiteNoise::new(7, UVec2::new(3, 5)).state, 356799);
    assert_ne!(WhiteNoise::new(7, UVec2::new(3, 5)).state, WhiteNoise::new(7, UVec2::new(5, 3)).state);
}

#[test]
fn hemisphere_samples_are_the_sum_of_two_unit_vectors() {
    let mut noise = WhiteNoise::new(0, UVec2::new(0, 0));
    assert_eq!(noise.sample_hemisphere(Vec3::new(0, 0, 100)), Vec3::new(2491, 2178, 1683));
    assert_eq!(noise.state, 2891336453);
    let mut noise = WhiteNoise::new(0, UVec2::new(0, 0));
    assert_eq!(noise.sample_hemisphere(Vec3::new(0, 0, -100)), Vec3::new(2491, 2178, -6509));
    let mut noise = WhiteNoise { state: 12345 };
    assert_eq!(noise.sample_hemisphere(Vec3::new(3, 4, 0)), Vec3::new(3597, 3095, 3931));
    // where the sum does not point to the normal's side, the normal is given
    let mut noise = WhiteNoise { state: 304 };
    assert_eq!(noise.sample_hemisphere(Vec3::new(0, 0, 1)), Vec3::new(0, 0, 1));
}

#[test]
fn hemisphere_samples_point_to_the_side_of_the_normal() {
    let mut noise = WhiteNoise::new(77, UVec2::new(9, 9));
    let normals = [
        Vec3::new(0, 0, 1),
        Vec3::new(0, -1, 0),
        Vec3::new(30000, 30000, 30000),
        Vec3::new(-32768, 5, 0),
        Vec3::new(1, 1, -1),
    ];
    for _ in 0..20000 {
        for n in normals.iter() {
            let d = noise.sample_hemisphere(*n);
            let along = d.x as i64 * n.x as i64 + d.y as i64 * n.y as i64 + d.z as i64 * n.z as i64;
            assert!(along > 0);
        }
    }
}

#[test]
fn blue_noise_walk_uses_one_dimension_for_each_number() {
    let noise = Noise::new();
    let mut lds = LdsBlueNoise::new(UVec2::new(5, 9), 3, 2);
    assert_eq!(lds.sample(&noise), 176);
    assert_eq!(lds, LdsBlueNoise { pixel: UVec2::new(5, 9), frame: 3, dimension: 3 });
    assert_eq!(lds.sample(&noise), noise.sample(UVec2::new(5, 9), 3, 3));
    assert_eq!(lds.dimension, 4);
    let mut last = LdsBlueNoise::new(UVec2::new(0, 0), 0, u32::MAX);
    assert_eq!(last.sample(&noise), noise.sample(UVec2::new(0, 0), 0, 255));
    assert_eq!(last.dimension, 0);
}

#[test]
fn noise_texture_is_a_square_of_bytes_to_copy_into() {
    let texture = Noise::new().blue_noise_texture();
    assert_eq!(texture.resource, Resource::BlueNoise);
    assert_eq!(texture.size, UVec2::new(256, 256));
    assert_eq!(texture.format, strolle::bindings::TextureFormat::Rgba8Unorm);
    assert!(texture.usages.copy_dst && texture.usages.storage_binding && !texture.usages.texture_binding);
    assert_eq!(texture.bind_writable(), Binding { resource: Resource::BlueNoise, access: Access::Writable });
}

#[test]
fn blue_noise_walk_joins_numbers_into_words() {
    let noise = Noise::new();
    let start = LdsBlueNoise::seeded(UVec2::new(5, 9), 3 + (2 << 7), 7);
    assert_eq!(start, LdsBlueNoise { pixel: UVec2::new(8, 11), frame: 7, dimension: 0 });
    let mut bytes = start;
    let b: Vec<u32> = (0..6).map(|_| bytes.sample(&noise) as u32).collect();
    let mut words = start;
    assert_eq!(words.sample_u16(&noise), b[0] * 256 + b[1]);
    assert_eq!(words.dimension, 2);
    assert_eq!(words.sample_u32(&noise), ((b[2] * 256 + b[3]) << 16) + b[4] * 256 + b[5]);
    assert_eq!(words.dimension, 6);
    // at the edge of the tile the seed wraps the pixel round
    let edge = LdsBlueNoise::seeded(UVec2::new(u32::MAX, 0), 127 + (127 << 7), 0);
    assert_eq!(edge.pixel, UVec2::new(126, 127));
}
