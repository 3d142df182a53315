use vstd::prelude::*;
use crate::bindings::{
    Access, Binding, MappedStorageBuffer, Resource, Texture, TextureFormat, TextureUsages,
};
use crate::vector::{dot, lemma_unit_small, unit, unit_of, v, V};
use crate::math::{mul_i64, UVec2, Vec3};

verus! {

/// Side of the blue-noise texture, in pixels.
pub const BLUE_NOISE_SIZE: u32 = 256;

/// Number of entries of the Sobol table: 256 samples of 256 dimensions.
pub const SOBOL_LEN: usize = 65536;

/// Number of entries of each tile table: 128 x 128 pixels of 8 dimensions.
pub const TILE_LEN: usize = 131072;

/// Entry `i` of the Sobol sequence table for two samples per pixel.
pub uninterp spec fn sobol_entry(i: int) -> i32;

/// Entry `i` of the scrambling tile for two samples per pixel.
pub uninterp spec fn scrambling_tile_entry(i: int) -> i32;

/// Entry `i` of the ranking tile for two samples per pixel.
pub uninterp spec fn ranking_tile_entry(i: int) -> i32;

/// The RGBA8 pixels that the `image` crate decodes from the encoded image
/// `bytes`, the format guessed from the content; `None` where it reports an
/// error or decodes to another pixel layout.
pub uninterp spec fn decoded_rgba8(bytes: Seq<u8>) -> Option<Seq<u8>>;

/// Copies `blue_noise_sampler::spp2::SOBOL`, a table of 65536 entries.
#[verifier::external_body]
fn sobol_table() -> (table: Vec<i32>)
    ensures
        table@.len() == SOBOL_LEN,
        forall|i: int| 0 <= i < table@.len() ==> table@[i] == sobol_entry(i),
{
    blue_noise_sampler::spp2::SOBOL.to_vec()
}

/// Copies `blue_noise_sampler::spp2::SCRAMBLING_TILE`, a table of 131072
/// entries.
#[verifier::external_body]
fn scrambling_tile_table() -> (table: Vec<i32>)
    ensures
        table@.len() == TILE_LEN,
        forall|i: int| 0 <= i < table@.len() ==> table@[i] == scrambling_tile_entry(i),
{
    blue_noise_sampler::spp2::SCRAMBLING_TILE.to_vec()
}

/// Copies `blue_noise_sampler::spp2::RANKING_TILE`, a table of 131072
/// entries.
#[verifier::external_body]
fn ranking_tile_table() -> (table: Vec<i32>)
    ensures
        table@.len() == TILE_LEN,
        forall|i: int| 0 <= i < table@.len() ==> table@[i] == ranking_tile_entry(i),
{
    blue_noise_sampler::spp2::RANKING_TILE.to_vec()
}

/// Runs `image::io::Reader` on `bytes`: `new` over a cursor,
/// `with_guessed_format`, `decode`, then `DynamicImage::as_rgba8` and the
/// buffer's raw bytes. Any error, and any other pixel layout, gives `None`.
#[verifier::external_body]
fn decode_rgba8(bytes: &[u8]) -> (pixels: Option<Vec<u8>>)
    ensures
        pixels is Some == decoded_rgba8(bytes@) is Some,
        pixels matches Some(p) ==> decoded_rgba8(bytes@) == Some(p@),
{
    let reader = image::io::Reader::new(std::io::Cursor::new(bytes));
    let image = reader.with_guessed_format().ok()?.decode().ok()?;
    image.as_rgba8().map(|rgba| rgba.as_raw().clone())
}

/// The blue-noise resources of the renderer: the noise texture and the three
/// tables of the low-discrepancy sampler, with what is known of their upload.
#[derive(Debug)]
pub struct Noise {
    blue_noise: Texture,
    blue_noise_sobol: MappedStorageBuffer,
    blue_noise_scrambling_tile: MappedStorageBuffer,
    blue_noise_ranking_tile: MappedStorageBuffer,
    flushed: bool,
}

/// Why the noise texture could not be uploaded.
#[derive(Clone, Copy, Debug, PartialEq, Eq, Structural)]
pub enum NoiseError {
    /// The encoded image does not decode to RGBA8 pixels.
    Undecodable,
    /// The image is not 256 x 256 pixels.
    WrongSize,
}

/// A write of pixel rows into a texture of the host.
#[derive(Debug)]
pub struct TextureWrite {
    pub resource: Resource,
    pub mip_level: u32,
    pub origin: (u32, u32, u32),
    pub data: Vec<u8>,
    pub offset: u64,
    pub bytes_per_row: Option<u32>,
    pub rows_per_image: Option<u32>,
    pub extent: (u32, u32, u32),
}

/// What the host has to write to the device after a flush: the noise
/// texture, and each table that was not yet written.
#[derive(Debug)]
pub struct NoiseUpload {
    pub texture: TextureWrite,
    pub sobol: bool,
    pub scrambling_tile: bool,
    pub ranking_tile: bool,
}

/// The write that fills the whole noise texture with `pixels`.
pub open spec fn is_blue_noise_write(write: TextureWrite, pixels: Seq<u8>) -> bool {
    &&& write.resource == Resource::BlueNoise
    &&& write.mip_level == 0
    &&& write.origin == (0u32, 0u32, 0u32)
    &&& write.data@ == pixels
    &&& write.offset == 0
    &&& write.bytes_per_row == Some(1024u32)
    &&& write.rows_per_image == None::<u32>
    &&& write.extent == (256u32, 256u32, 1u32)
}

/// The low byte of a table entry.
pub open spec fn low_byte(v: i32) -> u32 {
    (v & 255) as u32
}

/// The sample of the blue-noise sampler for pixel (`x`, `y`): the value of
/// the Sobol sequence at sample `index` and `dimension`, the sample ranked
/// and the value scrambled by the pixel's place in the 128 x 128 tile.
pub open spec fn blue_noise_value(
    sobol: Seq<i32>,
    scrambling_tile: Seq<i32>,
    ranking_tile: Seq<i32>,
    x: u32,
    y: u32,
    index: u32,
    dimension: u32,
) -> u8 {
    let tile = ((x & 127) + (y & 127) * 128) * 8 + (dimension & 7);
    let ranked = (index & 255) ^ low_byte(ranking_tile[tile]);
    let value = low_byte(sobol[(dimension & 255) + ranked * 256]) ^ low_byte(
        scrambling_tile[tile],
    );
    value as u8
}

proof fn lemma_masks(x: u32, y: u32, index: u32, dimension: u32)
    by (bit_vector)
    ensures
        x & 127 <= 127,
        y & 127 <= 127,
        index & 255 <= 255,
        dimension & 255 <= 255,
        dimension & 7 <= 7,
{
}

proof fn lemma_low_byte(v: i32)
    by (bit_vector)
    ensures
        0 <= v & 255 <= 255,
{
}

proof fn lemma_xor_byte(a: u32, b: u32)
    by (bit_vector)
    requires
        a <= 255,
        b <= 255,
    ensures
        a ^ b <= 255,
{
}

fn low_byte_of(v: i32) -> (b: u32)
    ensures
        b == low_byte(v),
        b <= 255,
{
    proof {
        lemma_low_byte(v);
    }
    (v & 255) as u32
}

impl Noise {
    #[verifier::type_invariant]
    spec fn tables_sized(&self) -> bool {
        &&& self.blue_noise.resource == Resource::BlueNoise
        &&& self.blue_noise_sobol.data().len() == SOBOL_LEN
        &&& self.blue_noise_scrambling_tile.data().len() == TILE_LEN
        &&& self.blue_noise_ranking_tile.data().len() == TILE_LEN
    }

    pub closed spec fn texture(&self) -> Texture {
        self.blue_noise
    }

    pub closed spec fn sobol(&self) -> Seq<i32> {
        self.blue_noise_sobol.data()
    }

    pub closed spec fn scrambling_tile(&self) -> Seq<i32> {
        self.blue_noise_scrambling_tile.data()
    }

    pub closed spec fn ranking_tile(&self) -> Seq<i32> {
        self.blue_noise_ranking_tile.data()
    }

    /// The noise texture has been handed out for upload.
    pub closed spec fn flushed(&self) -> bool {
        self.flushed
    }

    /// Which of the three tables are still to be written to the device:
    /// Sobol, scrambling tile, ranking tile.
    pub closed spec fn pending(&self) -> (bool, bool, bool) {
        (
            self.blue_noise_sobol.dirty(),
            self.blue_noise_scrambling_tile.dirty(),
            self.blue_noise_ranking_tile.dirty(),
        )
    }

    /// Same tables and texture, whatever the state of the upload.
    pub open spec fn same_resources(&self, other: &Noise) -> bool {
        &&& self.texture() == other.texture()
        &&& self.sobol() == other.sobol()
        &&& self.scrambling_tile() == other.scrambling_tile()
        &&& self.ranking_tile() == other.ranking_tile()
    }

    pub fn new() -> (noise: Noise)
        ensures
            noise.texture() == (Texture {
                resource: Resource::BlueNoise,
                size: UVec2 { x: BLUE_NOISE_SIZE, y: BLUE_NOISE_SIZE },
                format: TextureFormat::Rgba8Unorm,
                usages: TextureUsages {
                    copy_dst: true,
                    storage_binding: true,
                    texture_binding: false,
                },
            }),
            noise.sobol() == Seq::new(SOBOL_LEN as nat, |i: int| sobol_entry(i)),
            noise.scrambling_tile() == Seq::new(TILE_LEN as nat, |i: int| scrambling_tile_entry(i)),
            noise.ranking_tile() == Seq::new(TILE_LEN as nat, |i: int| ranking_tile_entry(i)),
            !noise.flushed(),
            noise.pending() == (true, true, true),
    {
        let sobol = sobol_table();
        let scrambling_tile = scrambling_tile_table();
        let ranking_tile = ranking_tile_table();
        assert(sobol@ =~= Seq::new(SOBOL_LEN as nat, |i: int| sobol_entry(i)));
        assert(scrambling_tile@ =~= Seq::new(TILE_LEN as nat, |i: int| scrambling_tile_entry(i)));
        assert(ranking_tile@ =~= Seq::new(TILE_LEN as nat, |i: int| ranking_tile_entry(i)));
        Noise {
            blue_noise: Texture {
                resource: Resource::BlueNoise,
                size: UVec2 { x: BLUE_NOISE_SIZE, y: BLUE_NOISE_SIZE },
                format: TextureFormat::Rgba8Unorm,
                usages: TextureUsages {
                    copy_dst: true,
                    storage_binding: true,
                    texture_binding: false,
                },
            },
            blue_noise_sobol: MappedStorageBuffer::new(Resource::BlueNoiseSobol, sobol),
            blue_noise_scrambling_tile: MappedStorageBuffer::new(
                Resource::BlueNoiseScramblingTile,
                scrambling_tile,
            ),
            blue_noise_ranking_tile: MappedStorageBuffer::new(
                Resource::BlueNoiseRankingTile,
                ranking_tile,
            ),
            flushed: false,
        }
    }

    /// Takes the decoded pixels of the noise image and, once, hands out what
    /// is to be written to the device. A flush after the first hands out
    /// nothing, whatever the pixels; a failed one leaves everything as it was.
    pub fn flush_decoded(&mut self, pixels: Option<Vec<u8>>) -> (r: Result<
        Option<NoiseUpload>,
        NoiseError,
    >)
        ensures
            final(self).same_resources(old(self)),
            old(self).flushed() ==> r == Ok::<Option<NoiseUpload>, NoiseError>(None) && final(self).flushed() && final(self).pending() == old(self).pending(),
            !old(self).flushed() ==> match pixels {
                None => r == Err::<Option<NoiseUpload>, NoiseError>(NoiseError::Undecodable),
                Some(p) => if p@.len() == 262144 {
                    &&& r matches Ok(Some(upload))
                    &&& is_blue_noise_write(upload.texture, p@)
                    &&& (upload.sobol, upload.scrambling_tile, upload.ranking_tile) == old(self).pending()
                } else {
                    r == Err::<Option<NoiseUpload>, NoiseError>(NoiseError::WrongSize)
                },
            },
            !old(self).flushed() && r is Err ==> !final(self).flushed() && final(self).pending()
                == old(self).pending(),
            !old(self).flushed() && r is Ok ==> final(self).flushed() && final(self).pending() == (
                false,
                false,
                false,
            ),
    {
        proof {
            use_type_invariant(&*self);
        }
        if self.flushed {
            return Ok(None);
        }
        let data = match pixels {
            None => {
                return Err(NoiseError::Undecodable);
            },
            Some(data) => data,
        };
        if data.len() != 262144 {
            return Err(NoiseError::WrongSize);
        }
        let texture = TextureWrite {
            resource: self.blue_noise.resource,
            mip_level: 0,
            origin: (0, 0, 0),
            data,
            offset: 0,
            bytes_per_row: Some(256 * 4),
            rows_per_image: None,
            extent: (256, 256, 1),
        };
        let sobol = self.blue_noise_sobol.flush();
        let scrambling_tile = self.blue_noise_scrambling_tile.flush();
        let ranking_tile = self.blue_noise_ranking_tile.flush();
        self.flushed = true;
        Ok(Some(NoiseUpload { texture, sobol, scrambling_tile, ranking_tile }))
    }

    /// Decodes the encoded noise image and flushes, as [`Noise::flush_decoded`]
    /// does with the decoded pixels. Once flushed, the image is not looked at.
    pub fn flush(&mut self, encoded: &[u8]) -> (r: Result<Option<NoiseUpload>, NoiseError>)
        ensures
            final(self).same_resources(old(self)),
            old(self).flushed() ==> r == Ok::<Option<NoiseUpload>, NoiseError>(None) && final(self).flushed() && final(self).pending() == old(self).pending(),
            !old(self).flushed() ==> match decoded_rgba8(encoded@) {
                None => r == Err::<Option<NoiseUpload>, NoiseError>(NoiseError::Undecodable),
                Some(p) => if p.len() == 262144 {
                    &&& r matches Ok(Some(upload))
                    &&& is_blue_noise_write(upload.texture, p)
                    &&& (upload.sobol, upload.scrambling_tile, upload.ranking_tile) == old(self).pending()
                } else {
                    r == Err::<Option<NoiseUpload>, NoiseError>(NoiseError::WrongSize)
                },
            },
            !old(self).flushed() && r is Err ==> !final(self).flushed() && final(self).pending()
                == old(self).pending(),
            !old(self).flushed() && r is Ok ==> final(self).flushed() && final(self).pending() == (
                false,
                false,
                false,
            ),
    {
        if self.flushed {
            return Ok(None);
        }
        let pixels = decode_rgba8(encoded);
        self.flush_decoded(pixels)
    }

    pub fn bind_blue_noise(&self) -> (b: Binding)
        ensures
            b == (Binding { resource: Resource::BlueNoise, access: Access::Readable }),
    {
        proof {
            use_type_invariant(self);
        }
        self.blue_noise.bind_readable()
    }

    pub fn bind_blue_noise_sobol(&self) -> (b: Binding)
        ensures
            b == (Binding { resource: Resource::BlueNoiseSobol, access: Access::Readable }),
    {
        Binding { resource: Resource::BlueNoiseSobol, access: Access::Readable }
    }

    pub fn bind_blue_noise_scrambling_tile(&self) -> (b: Binding)
        ensures
            b == (Binding { resource: Resource::BlueNoiseScramblingTile, access: Access::Readable }),
    {
        Binding { resource: Resource::BlueNoiseScramblingTile, access: Access::Readable }
    }

    pub fn bind_blue_noise_ranking_tile(&self) -> (b: Binding)
        ensures
            b == (Binding { resource: Resource::BlueNoiseRankingTile, access: Access::Readable }),
    {
        Binding { resource: Resource::BlueNoiseRankingTile, access: Access::Readable }
    }

    pub fn scrambling_tile_table(&self) -> (table: &Vec<i32>)
        ensures
            table@ == self.scrambling_tile(),
            table@.len() == TILE_LEN,
    {
        proof {
            use_type_invariant(self);
        }
        self.blue_noise_scrambling_tile.contents()
    }

    pub fn ranking_tile_table(&self) -> (table: &Vec<i32>)
        ensures
            table@ == self.ranking_tile(),
            table@.len() == TILE_LEN,
    {
        proof {
            use_type_invariant(self);
        }
        self.blue_noise_ranking_tile.contents()
    }

    /// What the noise texture has to be like on the device.
    pub fn blue_noise_texture(&self) -> (texture: Texture)
        ensures
            texture == self.texture(),
    {
        self.blue_noise
    }

    pub fn is_flushed(&self) -> (flushed: bool)
        ensures
            flushed == self.flushed(),
    {
        self.flushed
    }

    /// The tables of the sampler, for upload and for sampling on the host.
    pub fn sobol_table(&self) -> (table: &Vec<i32>)
        ensures
            table@ == self.sobol(),
            table@.len() == SOBOL_LEN,
    {
        proof {
            use_type_invariant(self);
        }
        self.blue_noise_sobol.contents()
    }

    /// One sample of the blue-noise sampler, a value in 256ths; see
    /// [`blue_noise_value`].
    pub fn sample(&self, pixel: UVec2, index: u32, dimension: u32) -> (value: u8)
        ensures
            value == blue_noise_value(
                self.sobol(),
                self.scrambling_tile(),
                self.ranking_tile(),
                pixel.x,
                pixel.y,
                index,
                dimension,
            ),
    {
        proof {
            use_type_invariant(self);
            lemma_masks(pixel.x, pixel.y, index, dimension);
        }
        let tile = (((pixel.x & 127) + (pixel.y & 127) * 128) * 8 + (dimension & 7)) as usize;
        let rank = low_byte_of(self.blue_noise_ranking_tile.contents()[tile]);
        let ranked = (index & 255) ^ rank;
        proof {
            lemma_xor_byte(index & 255, rank);
        }
        let at = ((dimension & 255) + ranked * 256) as usize;
        let a = low_byte_of(self.blue_noise_sobol.contents()[at]);
        let b = low_byte_of(self.blue_noise_scrambling_tile.contents()[tile]);
        proof {
            lemma_xor_byte(a, b);
        }
        (a ^ b) as u8
    }
}

/// A pixel's walk through the dimensions of the blue-noise sampler in one
/// frame: the frame picks the sample, each number drawn uses up one
/// dimension.
#[derive(Clone, Copy, Debug, PartialEq, Eq, Structural)]
pub struct LdsBlueNoise {
    pub pixel: UVec2,
    pub frame: u32,
    pub dimension: u32,
}

impl LdsBlueNoise {
    pub fn new(pixel: UVec2, frame: u32, dimension: u32) -> (lds: LdsBlueNoise)
        ensures
            lds == (LdsBlueNoise { pixel, frame, dimension }),
    {
        LdsBlueNoise { pixel, frame, dimension }
    }

    pub open spec fn spec_seeded(pixel: UVec2, seed: u32, frame: u32) -> LdsBlueNoise {
        LdsBlueNoise {
            pixel: UVec2 {
                x: vstd::wrapping::u32_specs::wrapping_add(pixel.x, seed & 127),
                y: vstd::wrapping::u32_specs::wrapping_add(pixel.y, (seed >> 7) & 127),
            },
            frame,
            dimension: 0,
        }
    }

    /// The walk of a pixel in a frame under a dispatch's seed: the seed
    /// moves the pixel's place in the tile, so that two dispatches of one
    /// frame do not draw the same numbers.
    #[verifier::when_used_as_spec(spec_seeded)]
    pub fn seeded(pixel: UVec2, seed: u32, frame: u32) -> (lds: LdsBlueNoise)
        ensures
            lds == LdsBlueNoise::spec_seeded(pixel, seed, frame),
    {
        LdsBlueNoise {
            pixel: UVec2 {
                x: pixel.x.wrapping_add(seed & 127),
                y: pixel.y.wrapping_add((seed >> 7) & 127),
            },
            frame,
            dimension: 0,
        }
    }

    /// The walk after `n` more numbers were drawn.
    pub open spec fn advanced(self, n: u32) -> LdsBlueNoise {
        LdsBlueNoise {
            dimension: vstd::wrapping::u32_specs::wrapping_add(self.dimension, n),
            ..self
        }
    }

    /// The number that the walk draws next.
    pub open spec fn value(self, noise: &Noise) -> u8 {
        blue_noise_value(
            noise.sobol(),
            noise.scrambling_tile(),
            noise.ranking_tile(),
            self.pixel.x,
            self.pixel.y,
            self.frame,
            self.dimension,
        )
    }

    /// The next two numbers as one of 16 bits, the first on top.
    pub open spec fn word16(self, noise: &Noise) -> u32 {
        (self.value(noise) * 256 + self.advanced(1).value(noise)) as u32
    }

    /// The next four numbers as one of 32 bits, the first on top.
    pub open spec fn word32(self, noise: &Noise) -> u32 {
        (self.word16(noise) * 65536 + self.advanced(2).word16(noise)) as u32
    }

    /// The sample of the current dimension; the walk moves on to the next
    /// dimension, and from the last one back to the first.
    pub fn sample(&mut self, noise: &Noise) -> (value: u8)
        ensures
            value == old(self).value(noise),
            *final(self) == old(self).advanced(1),
    {
        let value = noise.sample(self.pixel, self.frame, self.dimension);
        self.dimension = self.dimension.wrapping_add(1);
        value
    }

    /// Draws two numbers; see [`LdsBlueNoise::word16`].
    pub fn sample_u16(&mut self, noise: &Noise) -> (word: u32)
        ensures
            word == old(self).word16(noise),
            word < 65536,
            *final(self) == old(self).advanced(2),
    {
        let hi = self.sample(noise) as u32;
        let lo = self.sample(noise) as u32;
        hi * 256 + lo
    }

    /// Draws four numbers; see [`LdsBlueNoise::word32`].
    pub fn sample_u32(&mut self, noise: &Noise) -> (word: u32)
        ensures
            word == old(self).word32(noise),
            *final(self) == old(self).advanced(4),
    {
        let hi = self.sample_u16(noise);
        let lo = self.sample_u16(noise);
        hi * 65536 + lo
    }
}

/// The state after one step of the generator.
pub open spec fn pcg_step(state: u32) -> u32 {
    vstd::wrapping::u32_specs::wrapping_add(
        vstd::wrapping::u32_specs::wrapping_mul(state, 747796405),
        2891336453,
    )
}

/// The number that the generator gives out in `state`.
pub open spec fn pcg_output(state: u32) -> u32 {
    let word = vstd::wrapping::u32_specs::wrapping_mul(
        (state >> ((state >> 28) + 4)) ^ state,
        277803737,
    );
    (word >> 22) ^ word
}

/// The state that a pixel starts from under a dispatch's seed.
pub open spec fn white_noise_start(seed: u32, x: u32, y: u32) -> u32 {
    seed ^ vstd::wrapping::u32_specs::wrapping_mul(48619, x)
        ^ vstd::wrapping::u32_specs::wrapping_mul(95461, y)
}

proof fn lemma_top_nibble(state: u32)
    by (bit_vector)
    ensures
        (state >> 28) + 4 < 32,
{
}

/// A small per-pixel generator of uniform 32-bit numbers, seeded per
/// dispatch.
#[derive(Clone, Copy, Debug, PartialEq, Eq, Structural)]
pub struct WhiteNoise {
    pub state: u32,
}

impl WhiteNoise {
    pub fn new(seed: u32, id: UVec2) -> (noise: WhiteNoise)
        ensures
            noise.state == white_noise_start(seed, id.x, id.y),
    {
        WhiteNoise { state: seed ^ 48619u32.wrapping_mul(id.x) ^ 95461u32.wrapping_mul(id.y) }
    }

    /// Steps the generator and gives out the next number.
    pub fn sample_int(&mut self) -> (value: u32)
        ensures
            final(self).state == pcg_step(old(self).state),
            value == pcg_output(final(self).state),
    {
        self.state = self.state.wrapping_mul(747796405).wrapping_add(2891336453);
        proof {
            lemma_top_nibble(self.state);
        }
        let word = ((self.state >> ((self.state >> 28) + 4)) ^ self.state).wrapping_mul(277803737);
        (word >> 22) ^ word
    }
}

/// The vector that a random word spells: 11, 11 and 10 of its bits, each
/// coordinate centred on zero and at most 1024 in size.
pub open spec fn word_offset(word: u32) -> V {
    V {
        x: (word & 0x7ff) as int - 1024,
        y: ((word >> 11) & 0x7ff) as int - 1024,
        z: ((word >> 22) & 0x3ff) as int * 2 - 1023,
    }
}

/// The direction that a random word picks around a normal: the unit normal
/// plus the unit vector of the word, which leans towards the normal as a
/// cosine-weighted choice does; the normal itself where that sum does not
/// point to the normal's side.
pub open spec fn hemisphere_direction(word: u32, normal: Vec3) -> Vec3 {
    let n = unit(v(normal));
    let s = unit(word_offset(word));
    let d = V { x: n.x + s.x, y: n.y + s.y, z: n.z + s.z };
    if dot(d, v(normal)) > 0 {
        Vec3 { x: d.x as i16, y: d.y as i16, z: d.z as i16 }
    } else {
        normal
    }
}

proof fn lemma_word_offset(word: u32)
    by (bit_vector)
    ensures
        word & 0x7ff <= 2047,
        (word >> 11) & 0x7ff <= 2047,
        (word >> 22) & 0x3ff <= 1023,
{
}

impl WhiteNoise {
    /// Steps the generator and gives out a direction on the side of
    /// `normal`; see [`hemisphere_direction`].
    pub fn sample_hemisphere(&mut self, normal: Vec3) -> (direction: Vec3)
        ensures
            final(self).state == pcg_step(old(self).state),
            direction == hemisphere_direction(pcg_output(final(self).state), normal),
    {
        let word = self.sample_int();
        proof {
            lemma_word_offset(word);
        }
        let sx = (word & 0x7ff) as i64 - 1024;
        let sy = ((word >> 11) & 0x7ff) as i64 - 1024;
        let sz = ((word >> 22) & 0x3ff) as i64 * 2 - 1023;
        let s = unit_of(sx, sy, sz);
        let n = unit_of(normal.x as i64, normal.y as i64, normal.z as i64);
        let dx = n.0 + s.0;
        let dy = n.1 + s.1;
        let dz = n.2 + s.2;
        let along = mul_i64(dx, normal.x as i64, Ghost(8192), Ghost(32768)) + mul_i64(
            dy,
            normal.y as i64,
            Ghost(8192),
            Ghost(32768),
        ) + mul_i64(dz, normal.z as i64, Ghost(8192), Ghost(32768));
        if along > 0 {
            Vec3 { x: dx as i16, y: dy as i16, z: dz as i16 }
        } else {
            normal
        }
    }
}

/// A sampled direction points to the side of the normal it was sampled
/// around, whatever the random word.
pub proof fn lemma_hemisphere_side(word: u32, normal: Vec3)
    requires
        normal != (Vec3 { x: 0, y: 0, z: 0 }),
    ensures
        dot(v(hemisphere_direction(word, normal)), v(normal)) > 0,
{
    let n = unit(v(normal));
    let s = unit(word_offset(word));
    let d = V { x: n.x + s.x, y: n.y + s.y, z: n.z + s.z };
    if dot(d, v(normal)) > 0 {
        lemma_word_offset(word);
        lemma_unit_small(v(normal));
        lemma_unit_small(word_offset(word));
    } else {
        let a = v(normal);
        assert(a.x * a.x + a.y * a.y + a.z * a.z > 0) by (nonlinear_arith)
            requires
                a.x != 0 || a.y != 0 || a.z != 0,
        ;
    }
}

} // verus!
