//! Graphics: the pixels of an image as tiles in the format of the Game
//! Boy, two bits per pixel in two planes.

use crate::rom_builder::Color;
use vstd::prelude::*;

verus! {

/// An image: its pixels row by row from the top, each row from the
/// left.
#[derive(Clone, PartialEq, Debug)]
pub struct Image {
    pub width: u32,
    pub height: u32,
    pub pixels: Vec<Color>,
}

impl Image {
    /// Whether there are as many pixels as width and height say.
    pub open spec fn complete(self) -> bool {
        self.pixels@.len() == self.width * self.height
    }

    /// The pixel in the column `x` of the row `y`.
    pub open spec fn pixel(self, x: int, y: int) -> Color {
        self.pixels@[y * self.width + x]
    }
}

/// The shade that the color map gives to a color: that of the first
/// entry with the color.
pub open spec fn shade(map: Seq<(Color, u8)>, color: Color) -> Option<u8>
    decreases map.len(),
{
    if map.len() == 0 {
        None
    } else if map[0].0 == color {
        Some(map[0].1)
    } else {
        shade(map.drop_first(), color)
    }
}

/// Whether no color has two entries in the color map.
pub open spec fn one_entry_each(map: Seq<(Color, u8)>) -> bool {
    forall|i: int, j: int| 0 <= i < j < map.len() ==> (#[trigger] map[i]).0 != (#[trigger] map[j]).0
}

/// Where no color has two entries, the color map gives every color that
/// has an entry the shade of its entry, wherever the entry stands: the
/// order of the entries does not matter then.
pub proof fn lemma_shade_of_entry(map: Seq<(Color, u8)>, k: int)
    requires
        one_entry_each(map),
        0 <= k < map.len(),
    ensures
        shade(map, map[k].0) == Some(map[k].1),
    decreases map.len(),
{
    if k > 0 {
        let rest = map.drop_first();
        assert(map[0].0 != map[k].0);
        assert forall|i: int, j: int| 0 <= i < j < rest.len() implies (#[trigger] rest[i]).0 != (
        #[trigger] rest[j]).0 by {
            assert(map[i + 1].0 != map[j + 1].0);
        }
        lemma_shade_of_entry(rest, k - 1);
    }
}

/// Looks a color up in the color map.
pub fn find_shade(map: &Vec<(Color, u8)>, color: Color) -> (found: Option<u8>)
    ensures
        found == shade(map@, color),
{
    let mut i: usize = 0;
    assert(map@.subrange(0, map@.len() as int) == map@);
    while i < map.len()
        invariant
            i <= map@.len(),
            shade(map@, color) == shade(map@.subrange(i as int, map@.len() as int), color),
        decreases map@.len() - i,
    {
        let entry = &map[i];
        let ghost rest = map@.subrange(i as int, map@.len() as int);
        assert(rest[0] == map@[i as int]);
        assert(rest.drop_first() == map@.subrange(i + 1, map@.len() as int));
        if entry.0.red == color.red && entry.0.green == color.green && entry.0.blue == color.blue {
            return Some(entry.1);
        }
        i += 1;
    }
    assert(map@.subrange(i as int, map@.len() as int).len() == 0);
    None
}

/// The bit of a shade in a plane: plane 0 holds the low bit, plane 1
/// the high bit.
pub open spec fn plane_bit(shade: u8, plane: int) -> int {
    if plane == 0 {
        (shade % 2) as int
    } else {
        ((shade / 2) % 2) as int
    }
}

/// The weight of the pixel in the column `k` of a tile: the leftmost
/// pixel has the highest bit.
pub open spec fn weight(k: int) -> int {
    if k == 0 {
        128
    } else if k == 1 {
        64
    } else if k == 2 {
        32
    } else if k == 3 {
        16
    } else if k == 4 {
        8
    } else if k == 5 {
        4
    } else if k == 6 {
        2
    } else {
        1
    }
}

/// The two bytes of the first `count` pixels of one line of a tile, or
/// the first color that the color map does not hold. The line starts
/// at the column `x` of the row `y`.
pub open spec fn line_planes(
    image: Image,
    map: Seq<(Color, u8)>,
    x: int,
    y: int,
    count: int,
) -> Result<(int, int), Color>
    decreases count,
{
    if count <= 0 {
        Ok((0, 0))
    } else {
        match line_planes(image, map, x, y, count - 1) {
            Err(color) => Err(color),
            Ok((low, high)) => match shade(map, image.pixel(x + count - 1, y)) {
                None => Err(image.pixel(x + count - 1, y)),
                Some(shade) => Ok(
                    (
                        low + plane_bit(shade, 0) * weight(count - 1),
                        high + plane_bit(shade, 1) * weight(count - 1),
                    ),
                ),
            },
        }
    }
}

/// The bytes of the first `lines` lines of the tile whose upper left
/// pixel is in the column `x` of the row `y`: two bytes for each line,
/// the low plane first.
pub open spec fn tile_bytes(
    image: Image,
    map: Seq<(Color, u8)>,
    x: int,
    y: int,
    lines: int,
) -> Result<Seq<u8>, Color>
    decreases lines,
{
    if lines <= 0 {
        Ok(Seq::empty())
    } else {
        match tile_bytes(image, map, x, y, lines - 1) {
            Err(color) => Err(color),
            Ok(bytes) => match line_planes(image, map, x, y + lines - 1, 8) {
                Err(color) => Err(color),
                Ok((low, high)) => Ok(bytes.push(low as u8).push(high as u8)),
            },
        }
    }
}

/// The bytes of the first `tiles` tiles of the row of tiles whose upper
/// edge is the row `y`, from the left.
pub open spec fn tile_row_bytes(
    image: Image,
    map: Seq<(Color, u8)>,
    y: int,
    tiles: int,
) -> Result<Seq<u8>, Color>
    decreases tiles,
{
    if tiles <= 0 {
        Ok(Seq::empty())
    } else {
        match tile_row_bytes(image, map, y, tiles - 1) {
            Err(color) => Err(color),
            Ok(bytes) => match tile_bytes(image, map, (tiles - 1) * 8, y, 8) {
                Err(color) => Err(color),
                Ok(tile) => Ok(bytes + tile),
            },
        }
    }
}

/// The bytes of the first `rows` rows of tiles, from the top. Pixels
/// beyond the last whole tile of a row or a column are left out.
pub open spec fn image_bytes(image: Image, map: Seq<(Color, u8)>, rows: int) -> Result<
    Seq<u8>,
    Color,
>
    decreases rows,
{
    if rows <= 0 {
        Ok(Seq::empty())
    } else {
        match image_bytes(image, map, rows - 1) {
            Err(color) => Err(color),
            Ok(bytes) => match tile_row_bytes(image, map, (rows - 1) * 8, image.width as int / 8) {
                Err(color) => Err(color),
                Ok(row) => Ok(bytes + row),
            },
        }
    }
}

/// The tiles of the image.
pub open spec fn tiles_of(image: Image, map: Seq<(Color, u8)>) -> Result<Seq<u8>, Color> {
    image_bytes(image, map, image.height as int / 8)
}

/// The planes of a line of pixels are bytes.
pub proof fn lemma_line_planes_fit(
    image: Image,
    map: Seq<(Color, u8)>,
    x: int,
    y: int,
    count: int,
)
    requires
        0 <= count <= 8,
        line_planes(image, map, x, y, count) is Ok,
    ensures
        0 <= line_planes(image, map, x, y, count)->Ok_0.0,
        0 <= line_planes(image, map, x, y, count)->Ok_0.1,
        count == 0 ==> line_planes(image, map, x, y, count)->Ok_0 == (0int, 0int),
        count > 0 ==> line_planes(image, map, x, y, count)->Ok_0.0 <= 256 - weight(count - 1),
        count > 0 ==> line_planes(image, map, x, y, count)->Ok_0.1 <= 256 - weight(count - 1),
    decreases count,
{
    if count > 0 {
        lemma_line_planes_fit(image, map, x, y, count - 1);
    }
}

/// Reads one line of a tile into its two planes.
fn read_line(image: &Image, map: &Vec<(Color, u8)>, x: u32, y: u32) -> (result: Result<
    (u8, u8),
    Color,
>)
    requires
        image.complete(),
        x + 8 <= image.width,
        y < image.height,
    ensures
        match line_planes(*image, map@, x as int, y as int, 8) {
            Ok((low, high)) => result == Ok::<(u8, u8), Color>((low as u8, high as u8)) && 0 <= low
                < 256 && 0 <= high < 256,
            Err(color) => result == Err::<(u8, u8), Color>(color),
        },
{
    let mut byte0: u8 = 0x00;
    let mut byte1: u8 = 0x00;
    let mut hor_line: u32 = 0;
    while hor_line < 8
        invariant
            image.complete(),
            x + 8 <= image.width,
            y < image.height,
            hor_line <= 8,
            line_planes(*image, map@, x as int, y as int, hor_line as int) == Ok::<
                (int, int),
                Color,
            >((byte0 as int, byte1 as int)),
        decreases 8 - hor_line,
    {
        proof {
            lemma_line_planes_fit(*image, map@, x as int, y as int, hor_line as int);
            assert(y * image.width + x + hor_line < image.width * image.height)
                by (nonlinear_arith)
                requires
                    y < image.height,
                    x + hor_line < image.width,
            ;
            assert(0 <= y * image.width <= 0xFFFF_FFFF * 0xFFFF_FFFF) by (nonlinear_arith)
                requires
                    0 <= y <= 0xFFFF_FFFF,
                    0 <= image.width <= 0xFFFF_FFFF,
            ;
        }
        let count = image.pixels.len();
        let index = y as u64 * image.width as u64 + (x + hor_line) as u64;
        let color = image.pixels[index as usize];
        let gb_color = match find_shade(map, color) {
            Some(gb_color) => gb_color,
            None => {
                proof {
                    lemma_line_fault_stays(*image, map@, x as int, y as int, hor_line + 1, 8);
                }
                return Err(color);
            },
        };
        let shift: u32 = 7 - hor_line;
        let low: u8 = (gb_color & 0b01) << shift;
        let high: u8 = ((gb_color & 0b10) >> 1) << shift;
        proof {
            assert(low == (gb_color % 2) * (1u8 << shift) && high == ((gb_color / 2) % 2) * (1u8
                << shift) && (1u8 << shift) == (if shift == 7 {
                128u8
            } else if shift == 6 {
                64u8
            } else if shift == 5 {
                32u8
            } else if shift == 4 {
                16u8
            } else if shift == 3 {
                8u8
            } else if shift == 2 {
                4u8
            } else if shift == 1 {
                2u8
            } else {
                1u8
            })) by (bit_vector)
                requires
                    shift < 8,
                    low == (gb_color & 0b01u8) << shift,
                    high == ((gb_color & 0b10u8) >> 1) << shift,
            ;
            assert((1u8 << shift) == weight(hor_line as int));
            assert(low == plane_bit(gb_color, 0) * weight(hor_line as int)) by (nonlinear_arith)
                requires
                    low == (gb_color % 2) * (1u8 << shift),
                    (1u8 << shift) == weight(hor_line as int),
                    plane_bit(gb_color, 0) == (gb_color % 2) as int,
            ;
            assert(high == plane_bit(gb_color, 1) * weight(hor_line as int)) by (nonlinear_arith)
                requires
                    high == ((gb_color / 2) % 2) * (1u8 << shift),
                    (1u8 << shift) == weight(hor_line as int),
                    plane_bit(gb_color, 1) == ((gb_color / 2) % 2) as int,
            ;
            lemma_line_planes_fit(*image, map@, x as int, y as int, hor_line + 1);
        }
        byte0 = byte0 + low;
        byte1 = byte1 + high;
        hor_line += 1;
    }
    Ok((byte0, byte1))
}

/// A line with a color that the color map does not hold fails with
/// that color also when more pixels follow.
pub proof fn lemma_line_fault_stays(
    image: Image,
    map: Seq<(Color, u8)>,
    x: int,
    y: int,
    count: int,
    more: int,
)
    requires
        count <= more,
        line_planes(image, map, x, y, count) is Err,
    ensures
        line_planes(image, map, x, y, more) == line_planes(image, map, x, y, count),
    decreases more - count,
{
    if count < more {
        lemma_line_fault_stays(image, map, x, y, count, more - 1);
    }
}

/// A tile with a color that the color map does not hold fails with
/// that color also when more lines follow.
pub proof fn lemma_tile_fault_stays(
    image: Image,
    map: Seq<(Color, u8)>,
    x: int,
    y: int,
    lines: int,
    more: int,
)
    requires
        lines <= more,
        tile_bytes(image, map, x, y, lines) is Err,
    ensures
        tile_bytes(image, map, x, y, more) == tile_bytes(image, map, x, y, lines),
    decreases more - lines,
{
    if lines < more {
        lemma_tile_fault_stays(image, map, x, y, lines, more - 1);
    }
}

/// A row of tiles with a color that the color map does not hold fails
/// with that color also when more tiles follow.
pub proof fn lemma_tile_row_fault_stays(
    image: Image,
    map: Seq<(Color, u8)>,
    y: int,
    tiles: int,
    more: int,
)
    requires
        tiles <= more,
        tile_row_bytes(image, map, y, tiles) is Err,
    ensures
        tile_row_bytes(image, map, y, more) == tile_row_bytes(image, map, y, tiles),
    decreases more - tiles,
{
    if tiles < more {
        lemma_tile_row_fault_stays(image, map, y, tiles, more - 1);
    }
}

/// An image with a color that the color map does not hold fails with
/// that color also when more rows follow.
pub proof fn lemma_image_fault_stays(image: Image, map: Seq<(Color, u8)>, rows: int, more: int)
    requires
        rows <= more,
        image_bytes(image, map, rows) is Err,
    ensures
        image_bytes(image, map, more) == image_bytes(image, map, rows),
    decreases more - rows,
{
    if rows < more {
        lemma_image_fault_stays(image, map, rows, more - 1);
    }
}

/// Appends the sixteen bytes of one tile.
fn push_tile(image: &Image, map: &Vec<(Color, u8)>, x: u32, y: u32, bytes: &mut Vec<u8>) -> (result:
    Result<(), Color>)
    requires
        image.complete(),
        x + 8 <= image.width,
        y + 8 <= image.height,
    ensures
        match tile_bytes(*image, map@, x as int, y as int, 8) {
            Ok(tile) => result is Ok && final(bytes)@ == old(bytes)@ + tile,
            Err(color) => result == Err::<(), Color>(color),
        },
{
    let ghost before = bytes@;
    let mut vert_line: u32 = 0;
    while vert_line < 8
        invariant
            image.complete(),
            x + 8 <= image.width,
            y + 8 <= image.height,
            vert_line <= 8,
            tile_bytes(*image, map@, x as int, y as int, vert_line as int) is Ok,
            bytes@ == before + tile_bytes(*image, map@, x as int, y as int, vert_line as int)->Ok_0,
        decreases 8 - vert_line,
    {
        match read_line(image, map, x, y + vert_line) {
            Ok((byte0, byte1)) => {
                bytes.push(byte0);
                bytes.push(byte1);
            },
            Err(color) => {
                proof {
                    lemma_tile_fault_stays(
                        *image,
                        map@,
                        x as int,
                        y as int,
                        vert_line + 1,
                        8,
                    );
                }
                return Err(color);
            },
        }
        vert_line += 1;
    }
    Ok(())
}

/// Converts the image into tiles of 8 by 8 pixels. The tiles follow
/// each other row by row from the top, each row from the left. A tile
/// takes sixteen bytes: two for each of its lines from the top, the
/// first with the low bits of the shades of its pixels and the second
/// with the high bits, the leftmost pixel in the highest bit.
///
/// Fails with the first color that the color map does not hold.
pub fn image_to_tiles(image: &Image, map: &Vec<(Color, u8)>) -> (result: Result<Vec<u8>, Color>)
    requires
        image.complete(),
    ensures
        match tiles_of(*image, map@) {
            Ok(tiles) => result matches Ok(bytes) && bytes@ == tiles,
            Err(color) => result == Err::<Vec<u8>, Color>(color),
        },
{
    let mut bytes: Vec<u8> = Vec::new();
    let rows = image.height / 8;
    let columns = image.width / 8;
    let mut vert_tile: u32 = 0;
    while vert_tile < rows
        invariant
            image.complete(),
            rows == image.height / 8,
            columns == image.width / 8,
            vert_tile <= rows,
            image_bytes(*image, map@, vert_tile as int) == Ok::<Seq<u8>, Color>(bytes@),
        decreases rows - vert_tile,
    {
        let ghost before = bytes@;
        let mut hor_tile: u32 = 0;
        while hor_tile < columns
            invariant
                image.complete(),
                rows == image.height / 8,
                columns == image.width / 8,
                vert_tile < rows,
                hor_tile <= columns,
                image_bytes(*image, map@, vert_tile as int) == Ok::<Seq<u8>, Color>(before),
                tile_row_bytes(*image, map@, vert_tile * 8, hor_tile as int) is Ok,
                bytes@ == before + tile_row_bytes(
                    *image,
                    map@,
                    vert_tile * 8,
                    hor_tile as int,
                )->Ok_0,
            decreases columns - hor_tile,
        {
            match push_tile(image, map, hor_tile * 8, vert_tile * 8, &mut bytes) {
                Ok(_) => {},
                Err(color) => {
                    proof {
                        lemma_tile_row_fault_stays(
                            *image,
                            map@,
                            vert_tile * 8,
                            hor_tile + 1,
                            columns as int,
                        );
                        lemma_image_fault_stays(*image, map@, vert_tile + 1, rows as int);
                    }
                    return Err(color);
                },
            }
            hor_tile += 1;
        }
        vert_tile += 1;
    }
    Ok(bytes)
}

} // verus!
