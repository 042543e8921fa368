//! Textures as raw pixel data, and the table they are found in by name.

use vstd::hash_map::StringHashMap;
use vstd::prelude::*;

verus! {

/// How the bytes of a texture make up its pixels.
#[derive(Debug, Clone, Copy, PartialEq, Eq, Structural)]
pub enum TextureFormat {
    Rgba8,
    Rgb8,
    R8,
    Depth32Float,
}

/// How a texture is sampled between its pixels.
#[derive(Debug, Clone, Copy, PartialEq, Eq, Structural)]
pub enum FilterMode {
    Nearest,
    Linear,
}

/// How a texture is sampled between its mipmap levels.
#[derive(Debug, Clone, Copy, PartialEq, Eq, Structural)]
pub enum MipmapMode {
    Nearest,
    Linear,
}

/// How a texture is sampled outside its bounds.
#[derive(Debug, Clone, Copy, PartialEq, Eq, Structural)]
pub enum AddressMode {
    ClampToEdge,
    Repeat,
    MirrorRepeat,
}

/// The number of bytes that one pixel takes in `format`.
pub open spec fn pixel_bytes(format: TextureFormat) -> int {
    match format {
        TextureFormat::Rgba8 => 4,
        TextureFormat::Rgb8 => 3,
        TextureFormat::R8 => 1,
        TextureFormat::Depth32Float => 4,
    }
}

/// Whether the pixel in column `x` of row `y` of a checkerboard has the first
/// colour: the squares are eight pixels wide and high, the one at the origin
/// has the first colour.
pub open spec fn first_colour_at(x: int, y: int) -> bool {
    (x / 8 + y / 8) % 2 == 0
}

/// The bytes of a checkerboard of `width` by `height` pixels, row by row,
/// four bytes to the pixel.
pub open spec fn checkerboard_bytes(
    width: int,
    height: int,
    color1: Seq<u8>,
    color2: Seq<u8>,
) -> Seq<u8> {
    Seq::new(
        (width * height * 4) as nat,
        |i: int|
            {
                let pixel = i / 4;
                if first_colour_at(pixel % width, pixel / width) {
                    color1[i % 4]
                } else {
                    color2[i % 4]
                }
            },
    )
}

/// A texture: a name and raw pixel data.
#[derive(Debug)]
pub struct Texture {
    pub name: String,
    pub width: u32,
    pub height: u32,
    pub data: Vec<u8>,
    pub format: TextureFormat,
    /// The smaller versions of the texture, if any.
    pub mipmaps: Vec<Vec<u8>>,
}

impl Texture {
    /// Whether this is the texture that `new` makes of these values.
    pub open spec fn is_made_of(
        &self,
        name: Seq<char>,
        width: u32,
        height: u32,
        data: Seq<u8>,
        format: TextureFormat,
    ) -> bool {
        &&& self.name@ == name
        &&& self.width == width
        &&& self.height == height
        &&& self.data@ == data
        &&& self.format == format
        &&& self.mipmaps@.len() == 0
    }

    /// Whether the data has exactly the bytes that the size and the format
    /// ask for.
    pub open spec fn valid(&self) -> bool {
        self.data@.len() == self.width * self.height * pixel_bytes(self.format)
    }

    /// A texture of the given raw data, without mipmaps.
    pub fn new(name: &str, width: u32, height: u32, data: Vec<u8>, format: TextureFormat) -> (texture:
        Self)
        ensures
            texture.is_made_of(name@, width, height, data@, format),
    {
        Self { name: name.to_owned(), width, height, data, format, mipmaps: Vec::new() }
    }

    /// A texture of one pixel of the given colour.
    pub fn solid_color(name: &str, color: [u8; 4]) -> (texture: Self)
        ensures
            texture.is_made_of(name@, 1, 1, color@, TextureFormat::Rgba8),
            texture.valid(),
    {
        let mut data: Vec<u8> = Vec::with_capacity(4);
        data.push(color[0]);
        data.push(color[1]);
        data.push(color[2]);
        data.push(color[3]);
        assert(data@ =~= color@);
        Self::new(name, 1, 1, data, TextureFormat::Rgba8)
    }

    /// A checkerboard of two colours, in squares of eight by eight pixels.
    pub fn checkerboard(name: &str, width: u32, height: u32, color1: [u8; 4], color2: [u8; 4]) -> (texture:
        Self)
        requires
            width * height * 4 <= u32::MAX,
        ensures
            texture.is_made_of(
                name@,
                width,
                height,
                checkerboard_bytes(width as int, height as int, color1@, color2@),
                TextureFormat::Rgba8,
            ),
            texture.valid(),
    {
        let ghost target = checkerboard_bytes(width as int, height as int, color1@, color2@);
        assert(target.len() == width * height * 4);
        let mut data: Vec<u8> = Vec::new();
        assert(0 <= 0 * width * 4 <= target.len()) by (nonlinear_arith)
            requires
                target.len() == width * height * 4,
        ;
        let mut y: u32 = 0;
        while y < height
            invariant
                y <= height,
                width * height * 4 <= u32::MAX,
                target == checkerboard_bytes(width as int, height as int, color1@, color2@),
                target.len() == width * height * 4,
                data@.len() == y * width * 4,
                data@.len() <= target.len(),
                forall|i: int| 0 <= i < data@.len() ==> data@[i] == target[i],
            decreases height - y,
        {
            let mut x: u32 = 0;
            proof {
                lemma_progress(width as int, height as int, 0, y as int);
            }
            while x < width
                invariant
                    x <= width,
                    y < height,
                    width * height * 4 <= u32::MAX,
                    target == checkerboard_bytes(width as int, height as int, color1@, color2@),
                    target.len() == width * height * 4,
                    data@.len() == (y * width + x) * 4,
                    data@.len() <= target.len(),
                    forall|i: int| 0 <= i < data@.len() ==> data@[i] == target[i],
                decreases width - x,
            {
                let checker = ((x / 8) + (y / 8)) % 2 == 0;
                let color = if checker {
                    color1
                } else {
                    color2
                };
                proof {
                    let pixel = y * width + x;
                    lemma_pixel(width as int, height as int, x as int, y as int);
                    assert forall|k: int| 0 <= k < 4 implies target[pixel * 4 + k] == color@[k] by {
                        lemma_pixel_byte(pixel, k);
                    }
                }
                data.push(color[0]);
                data.push(color[1]);
                data.push(color[2]);
                data.push(color[3]);
                x += 1;
                proof {
                    lemma_progress(width as int, height as int, x as int, y as int);
                }
            }
            assert(data@.len() == (y + 1) * width * 4) by (nonlinear_arith)
                requires
                    data@.len() == (y * width + width) * 4,
            ;
            y += 1;
        }
        assert(data@.len() == target.len()) by (nonlinear_arith)
            requires
                data@.len() == height * width * 4,
                target.len() == width * height * 4,
        ;
        assert(data@ =~= target);
        Self::new(name, width, height, data, TextureFormat::Rgba8)
    }

    /// The number of bytes that one pixel takes.
    pub fn bytes_per_pixel(&self) -> (bytes: u32)
        ensures
            bytes == pixel_bytes(self.format),
    {
        match self.format {
            TextureFormat::Rgba8 => 4,
            TextureFormat::Rgb8 => 3,
            TextureFormat::R8 => 1,
            TextureFormat::Depth32Float => 4,
        }
    }

    /// The number of bytes of pixel data.
    pub fn size_in_bytes(&self) -> (size: usize)
        ensures
            size == self.data@.len(),
    {
        self.data.len()
    }

    /// Whether the data has exactly the bytes that the size and the format
    /// ask for.
    pub fn is_valid(&self) -> (valid: bool)
        ensures
            valid == self.valid(),
    {
        let bytes = self.bytes_per_pixel();
        assert(self.width * self.height * bytes <= 0xffff_ffff * 0xffff_ffff * 4) by (nonlinear_arith)
            requires
                self.width <= 0xffff_ffff,
                self.height <= 0xffff_ffff,
                0 <= bytes <= 4,
        ;
        assert(0 <= self.width * self.height <= 0xffff_ffff * 0xffff_ffff) by (nonlinear_arith)
            requires
                self.width <= 0xffff_ffff,
                self.height <= 0xffff_ffff,
        ;
        let expected: u128 = (self.width as u128) * (self.height as u128) * (bytes as u128);
        self.data.len() as u128 == expected
    }
}

/// The pixel in column `x` of row `y` stands at `y * width + x`, within the
/// data.
proof fn lemma_pixel(width: int, height: int, x: int, y: int)
    requires
        0 <= x < width,
        0 <= y < height,
    ensures
        (y * width + x) % width == x,
        (y * width + x) / width == y,
        0 <= (y * width + x) * 4,
        (y * width + x) * 4 + 4 <= width * height * 4,
{
    vstd::arithmetic::div_mod::lemma_fundamental_div_mod_converse(y * width + x, width, y, x);
    assert((y * width + x) * 4 + 4 <= width * height * 4) by (nonlinear_arith)
        requires
            0 <= x < width,
            0 <= y < height,
    ;
    assert(0 <= (y * width + x) * 4) by (nonlinear_arith)
        requires
            0 <= x < width,
            0 <= y < height,
    ;
}

/// What has been written before column `x` of row `y` fits into the data.
proof fn lemma_progress(width: int, height: int, x: int, y: int)
    requires
        0 <= x <= width,
        0 <= y < height,
    ensures
        0 <= (y * width + x) * 4 <= width * height * 4,
        (y * width + width) * 4 == (y + 1) * width * 4,
{
    assert(0 <= (y * width + x) * 4 <= width * height * 4) by (nonlinear_arith)
        requires
            0 <= x <= width,
            0 <= y < height,
    ;
    assert((y * width + width) * 4 == (y + 1) * width * 4) by (nonlinear_arith);
}

/// Byte `k` of pixel `pixel` stands at `pixel * 4 + k`.
proof fn lemma_pixel_byte(pixel: int, k: int)
    requires
        0 <= pixel,
        0 <= k < 4,
    ensures
        (pixel * 4 + k) / 4 == pixel,
        (pixel * 4 + k) % 4 == k,
{
}

/// Textures by name.
pub struct TextureManager {
    pub textures: StringHashMap<Texture>,
}

impl TextureManager {
    pub fn new() -> (manager: Self)
        ensures
            manager.textures@ == Map::<Seq<char>, Texture>::empty(),
    {
        Self { textures: StringHashMap::new() }
    }

    /// Puts `texture` under its name, in place of what stood there.
    pub fn register_texture(&mut self, texture: Texture)
        ensures
            final(self).textures@ == old(self).textures@.insert(texture.name@, texture),
    {
        let name = texture.name.clone();
        self.textures.insert(name, texture);
    }

    /// The texture under `name`, if any.
    pub fn get_texture(&self, name: &str) -> (texture: Option<&Texture>)
        ensures
            match texture {
                Some(found) => self.textures@.contains_key(name@) && *found == self.textures@[name@],
                None => !self.textures@.contains_key(name@),
            },
    {
        self.textures.get(name)
    }

    /// Registers the two textures that are always there: "placeholder", one
    /// white pixel, and "checkerboard", 64 by 64 pixels in white and black.
    pub fn create_default_textures(&mut self)
        ensures
            final(self).textures@.dom() == old(self).textures@.dom().insert("placeholder"@).insert(
                "checkerboard"@,
            ),
            forall|name: Seq<char>|
                name != "placeholder"@ && name != "checkerboard"@ && old(self).textures@.contains_key(name) ==> #[trigger] final(self).textures@[name] == old(self).textures@[name],
            final(self).textures@["placeholder"@].is_made_of(
                "placeholder"@,
                1,
                1,
                seq![255u8, 255u8, 255u8, 255u8],
                TextureFormat::Rgba8,
            ),
            final(self).textures@["checkerboard"@].is_made_of(
                "checkerboard"@,
                64,
                64,
                checkerboard_bytes(
                    64,
                    64,
                    seq![255u8, 255u8, 255u8, 255u8],
                    seq![0u8, 0u8, 0u8, 255u8],
                ),
                TextureFormat::Rgba8,
            ),
    {
        proof {
            reveal_strlit("placeholder");
            reveal_strlit("checkerboard");
        }
        let white: [u8; 4] = [255, 255, 255, 255];
        let black: [u8; 4] = [0, 0, 0, 255];
        assert(white@ =~= seq![255u8, 255u8, 255u8, 255u8]);
        assert(black@ =~= seq![0u8, 0u8, 0u8, 255u8]);
        let placeholder = Texture::solid_color("placeholder", white);
        self.register_texture(placeholder);
        let checkerboard = Texture::checkerboard("checkerboard", 64, 64, white, black);
        self.register_texture(checkerboard);
        assert("placeholder"@ != "checkerboard"@) by {
            assert("placeholder"@.len() == 11);
            assert("checkerboard"@.len() == 12);
        }
        assert(self.textures@.dom() =~= old(self).textures@.dom().insert("placeholder"@).insert(
            "checkerboard"@,
        ));
    }
}

impl Default for TextureManager {
    fn default() -> (manager: Self)
        ensures
            manager.textures@ == Map::<Seq<char>, Texture>::empty(),
    {
        Self::new()
    }
}

} // verus!
