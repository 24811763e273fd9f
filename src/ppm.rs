use vstd::prelude::*;

use crate::decimal::{decimal, push_decimal};

verus! {

/// One pixel of a pixmap: red, green and blue, each from 0 to 255.
#[derive(Clone, Copy, Debug, PartialEq, Eq, Structural)]
pub struct Pixel {
    pub r: u8,
    pub g: u8,
    pub b: u8,
}

/// The text of a pixel: its three channels in decimal, separated by single spaces.
pub open spec fn pixel_text(p: Pixel) -> Seq<char> {
    decimal(p.r as nat) + seq![' '] + decimal(p.g as nat) + seq![' '] + decimal(p.b as nat)
}

impl Pixel {
    pub fn new(r: u8, g: u8, b: u8) -> (p: Pixel)
        ensures
            p == (Pixel { r, g, b }),
    {
        Pixel { r, g, b }
    }

    /// Writes the pixel as `"r g b"`.
    pub fn to_string(&self) -> (s: String)
        ensures
            s@ == pixel_text(*self),
    {
        let mut s = String::new();
        self.push_text(&mut s);
        s
    }

    fn push_text(&self, s: &mut String)
        ensures
            final(s)@ == old(s)@ + pixel_text(*self),
    {
        let ghost start = s@;
        push_decimal(s, self.r as u32);
        s.append(" ");
        push_decimal(s, self.g as u32);
        s.append(" ");
        push_decimal(s, self.b as u32);
        proof {
            reveal_strlit(" ");
            assert(s@ =~= start + pixel_text(*self));
        }
    }
}

/// What a pixmap holds: its dimensions, and its pixels as `width` columns of
/// `height` pixels each, so that `columns[x][y]` is the pixel at `(x, y)`.
pub ghost struct PixmapView {
    pub width: nat,
    pub height: nat,
    pub columns: Seq<Seq<Pixel>>,
}

impl PixmapView {
    /// The grid has exactly the dimensions that the pixmap declares.
    pub open spec fn wf(self) -> bool {
        &&& self.columns.len() == self.width
        &&& forall|x: int| 0 <= x < self.width ==> #[trigger] self.columns[x].len() == self.height
    }

    pub open spec fn at(self, x: int, y: int) -> Pixel {
        self.columns[x][y]
    }
}

/// The colour that every pixel of a new pixmap has.
pub open spec fn white() -> Pixel {
    Pixel { r: 255, g: 255, b: 255 }
}

/// A pixmap of `width` by `height` pixels, written out in the plain-text
/// portable pixmap format.
pub struct PPM {
    width: u16,
    height: u16,
    data: Vec<Vec<Pixel>>,
}

impl View for PPM {
    type V = PixmapView;

    closed spec fn view(&self) -> PixmapView {
        PixmapView {
            width: self.width as nat,
            height: self.height as nat,
            columns: self.data@.map_values(|c: Vec<Pixel>| c@),
        }
    }
}

/// The message of a write outside the pixmap.
pub open spec fn out_of_bounds_text(x: nat, y: nat, width: nat, height: nat) -> Seq<char> {
    "set("@ + decimal(x) + ", "@ + decimal(y) + ") out of bounds for "@ + decimal(width) + "x"@
        + decimal(height) + " image"@
}

/// The first `n` pixels of row `y`, each after a line break.
pub open spec fn row_text(columns: Seq<Seq<Pixel>>, y: int, n: nat) -> Seq<char>
    decreases n,
{
    if n == 0 {
        Seq::empty()
    } else {
        row_text(columns, y, (n - 1) as nat) + seq!['\n'] + pixel_text(columns[n - 1][y])
    }
}

/// The first `n` rows of a grid `width` pixels wide, top row first.
pub open spec fn rows_text(columns: Seq<Seq<Pixel>>, width: nat, n: nat) -> Seq<char>
    decreases n,
{
    if n == 0 {
        Seq::empty()
    } else {
        rows_text(columns, width, (n - 1) as nat) + row_text(columns, n - 1, width)
    }
}

/// The plain-text pixmap: the magic `P3`, the width and height, the largest
/// channel value 255, then every pixel on a line of its own, row by row and
/// left to right within a row. The text does not end in a line break.
pub open spec fn ppm_text(v: PixmapView) -> Seq<char> {
    "P3\n"@ + decimal(v.width) + " "@ + decimal(v.height) + "\n255"@ + rows_text(v.columns, v.width, v.height)
}

impl PPM {
    /// The whole pixmap as plain text.
    pub fn to_string(&self) -> (s: String)
        requires
            self.wf(),
        ensures
            s@ == ppm_text(self@),
    {
        let mut s = String::new();
        s.append("P3\n");
        push_decimal(&mut s, self.width as u32);
        s.append(" ");
        push_decimal(&mut s, self.height as u32);
        s.append("\n255");
        let ghost header = s@;
        let mut y: u16 = 0;
        while y < self.height
            invariant
                self.wf(),
                y <= self.height,
                s@ == header + rows_text(self@.columns, self@.width, y as nat),
            decreases self.height - y,
        {
            let mut x: u16 = 0;
            while x < self.width
                invariant
                    self.wf(),
                    y < self.height,
                    x <= self.width,
                    s@ == header + rows_text(self@.columns, self@.width, y as nat)
                        + row_text(self@.columns, y as int, x as nat),
                decreases self.width - x,
            {
                let ghost before = s@;
                s.append("\n");
                assert(self@.columns[x as int].len() == self@.height);
                self.data[x as usize][y as usize].push_text(&mut s);
                proof {
                    reveal_strlit("\n");
                    assert(s@ =~= before + seq!['\n'] + pixel_text(self@.at(x as int, y as int)));
                }
                x = x + 1;
            }
            proof {
                assert(s@ =~= header + rows_text(self@.columns, self@.width, (y + 1) as nat));
            }
            y = y + 1;
        }
        s
    }

    pub open spec fn wf(&self) -> bool {
        self@.wf()
    }

    /// A pixmap of the given size, all white.
    pub fn new(width: u16, height: u16) -> (p: PPM)
        ensures
            p.wf(),
            p@.width == width,
            p@.height == height,
            forall|x: int, y: int| 0 <= x < width && 0 <= y < height ==> #[trigger] p@.at(x, y) == white(),
    {
        let mut data: Vec<Vec<Pixel>> = Vec::new();
        let mut i: u16 = 0;
        while i < width
            invariant
                i <= width,
                data@.len() == i,
                forall|k: int| 0 <= k < i ==> #[trigger] data@[k]@ == Seq::new(height as nat, |j: int| white()),
            decreases width - i,
        {
            let mut column: Vec<Pixel> = Vec::new();
            let mut j: u16 = 0;
            while j < height
                invariant
                    j <= height,
                    column@ == Seq::new(j as nat, |k: int| white()),
                decreases height - j,
            {
                column.push(Pixel { r: 255, g: 255, b: 255 });
                j = j + 1;
                assert(column@ =~= Seq::new(j as nat, |k: int| white()));
            }
            data.push(column);
            i = i + 1;
        }
        let p = PPM { width, height, data };
        assert forall|x: int, y: int| 0 <= x < width && 0 <= y < height implies #[trigger] p@.at(x, y) == white() by {
            assert(p.data@[x]@ == Seq::new(height as nat, |j: int| white()));
        }
        assert forall|x: int| 0 <= x < p@.width implies #[trigger] p@.columns[x].len() == p@.height by {
            assert(p.data@[x]@ == Seq::new(height as nat, |j: int| white()));
        }
        p
    }

    /// The width and the height, in that order.
    pub fn get_dimensions(&self) -> (r: (u16, u16))
        ensures
            r.0 as nat == self@.width,
            r.1 as nat == self@.height,
    {
        (self.width, self.height)
    }

    /// Puts `pixel` at `(x, y)` and hands back the pixel that stood there; a
    /// place outside the pixmap changes nothing and is reported.
    pub fn set(&mut self, x: u16, y: u16, pixel: Pixel) -> (r: Result<Pixel, String>)
        requires
            old(self).wf(),
        ensures
            final(self).wf(),
            r is Ok <==> (x < old(self)@.width && y < old(self)@.height),
            r matches Ok(prev) ==> prev == old(self)@.at(x as int, y as int)
                && final(self)@ == (PixmapView {
                    columns: old(self)@.columns.update(
                        x as int,
                        old(self)@.columns[x as int].update(y as int, pixel),
                    ),
                    ..old(self)@
                }),
            r matches Err(e) ==> e@ == out_of_bounds_text(x as nat, y as nat, old(self)@.width, old(self)@.height)
                && final(self)@ == old(self)@,
    {
        if x < self.width && y < self.height {
            let prev = self.data[x as usize][y as usize];
            self.data[x as usize][y as usize] = pixel;
            proof {
                assert(self@.columns =~= old(self)@.columns.update(
                    x as int,
                    old(self)@.columns[x as int].update(y as int, pixel),
                ));
            }
            Ok(prev)
        } else {
            let mut e = String::new();
            e.append("set(");
            push_decimal(&mut e, x as u32);
            e.append(", ");
            push_decimal(&mut e, y as u32);
            e.append(") out of bounds for ");
            push_decimal(&mut e, self.width as u32);
            e.append("x");
            push_decimal(&mut e, self.height as u32);
            e.append(" image");
            proof {
                assert(e@ =~= out_of_bounds_text(x as nat, y as nat, self@.width, self@.height));
            }
            Err(e)
        }
    }
}

} // verus!
