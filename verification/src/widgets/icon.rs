//! Icons: pixel conversion and the images made of a tray item's pixmaps.

use vstd::prelude::*;

verus! {

/// The byte at position `i` after every complete group of four bytes has
/// been rotated right by one: alpha moves from the front of its group to
/// the back. Bytes of a trailing incomplete group stay where they are.
pub open spec fn rgba_byte(argb: Seq<u8>, i: int) -> u8 {
    if i >= (argb.len() / 4) * 4 {
        argb[i]
    } else if i % 4 == 3 {
        argb[i - 3]
    } else {
        argb[i + 1]
    }
}

/// The RGBA rendering of an ARGB pixel buffer.
pub open spec fn rgba_of(argb: Seq<u8>) -> Seq<u8> {
    Seq::new(argb.len(), |i: int| rgba_byte(argb, i))
}

/// Converts ARGB32 pixel rows to RGBA in place and hands the buffer back.
pub fn argb2rgba(argb: Vec<u8>) -> (rgba: Vec<u8>)
    ensures
        rgba@ == rgba_of(argb@),
{
    let mut out = argb;
    let n: usize = out.len();
    let mut i: usize = 0;
    while n - i >= 4
        invariant
            i <= n,
            i % 4 == 0,
            out.len() == n,
            n == argb.len(),
            forall|k: int| 0 <= k < i ==> out@[k] == rgba_byte(argb@, k),
            forall|k: int| i <= k < n ==> out@[k] == argb@[k],
        decreases n - i,
    {
        let a: u8 = out[i];
        let r: u8 = out[i + 1];
        let g: u8 = out[i + 2];
        let b: u8 = out[i + 3];
        out[i] = r;
        out[i + 1] = g;
        out[i + 2] = b;
        out[i + 3] = a;
        i = i + 4;
    }
    assert(out@ =~= rgba_of(argb@));
    out
}

/// Law: pixel by pixel, the converted buffer holds red, green, blue and
/// alpha where the buffer held alpha, red, green and blue; its length is
/// the same.
pub proof fn lemma_rgba_pixels(argb: Seq<u8>)
    ensures
        rgba_of(argb).len() == argb.len(),
        forall|pixel: int|
            #![trigger rgba_of(argb)[4 * pixel]]
            0 <= pixel < argb.len() / 4 ==> {
                &&& rgba_of(argb)[4 * pixel] == argb[4 * pixel + 1]
                &&& rgba_of(argb)[4 * pixel + 1] == argb[4 * pixel + 2]
                &&& rgba_of(argb)[4 * pixel + 2] == argb[4 * pixel + 3]
                &&& rgba_of(argb)[4 * pixel + 3] == argb[4 * pixel]
            },
        forall|i: int| (argb.len() / 4) * 4 <= i < argb.len() ==> rgba_of(argb)[i] == argb[i],
{
}

/// One rendering of a tray item's icon: rows of pixels, four bytes each,
/// alpha first.
#[derive(Clone, Debug, PartialEq, Eq)]
pub struct IconPixmap {
    pub width: i32,
    pub height: i32,
    pub pixels: Vec<u8>,
}

/// What an [`IconPixmap`] holds.
pub ghost struct IconPixmapView {
    pub width: i32,
    pub height: i32,
    pub pixels: Seq<u8>,
}

impl View for IconPixmap {
    type V = IconPixmapView;

    open spec fn view(&self) -> IconPixmapView {
        IconPixmapView { width: self.width, height: self.height, pixels: self.pixels@ }
    }
}

/// The views of pixmaps.
pub open spec fn pixmap_views(pixmaps: Seq<IconPixmap>) -> Seq<IconPixmapView> {
    pixmaps.map_values(|pixmap: IconPixmap| pixmap@)
}

/// The view of optional pixmaps.
pub open spec fn optional_pixmap_views(pixmaps: Option<Vec<IconPixmap>>) -> Option<
    Seq<IconPixmapView>,
> {
    match pixmaps {
        Some(pixmaps) => Some(pixmap_views(pixmaps@)),
        None => None,
    }
}

/// An image for the bar: rows of pixels, four bytes each: red, green,
/// blue, alpha.
#[derive(Clone, Debug, PartialEq, Eq)]
pub struct Pixbuf {
    pub width: i32,
    pub height: i32,
    /// The number of bytes from one row to the next.
    pub rowstride: i32,
    pub pixels: Vec<u8>,
}

/// What a [`Pixbuf`] holds.
pub ghost struct PixbufView {
    pub width: i32,
    pub height: i32,
    pub rowstride: i32,
    pub pixels: Seq<u8>,
}

impl View for Pixbuf {
    type V = PixbufView;

    open spec fn view(&self) -> PixbufView {
        PixbufView {
            width: self.width,
            height: self.height,
            rowstride: self.rowstride,
            pixels: self.pixels@,
        }
    }
}

/// The view of an optional image.
pub open spec fn image_view(image: Option<Pixbuf>) -> Option<PixbufView> {
    match image {
        Some(image) => Some(image@),
        None => None,
    }
}

/// The place of the tallest pixmap; of several that are equally tall, the
/// last.
pub open spec fn tallest(pixmaps: Seq<IconPixmapView>) -> int
    decreases pixmaps.len(),
{
    if pixmaps.len() <= 1 {
        0
    } else {
        let before = tallest(pixmaps.drop_last());
        if pixmaps.last().height >= pixmaps[before].height {
            pixmaps.len() - 1
        } else {
            before
        }
    }
}

/// Law: the tallest pixmap is as tall as any, and taller than all behind
/// it.
pub proof fn lemma_tallest(pixmaps: Seq<IconPixmapView>)
    requires
        pixmaps.len() > 0,
    ensures
        0 <= tallest(pixmaps) < pixmaps.len(),
        forall|k: int|
            0 <= k < pixmaps.len() ==> (#[trigger] pixmaps[k]).height <= pixmaps[tallest(
                pixmaps,
            )].height,
        forall|k: int|
            tallest(pixmaps) < k < pixmaps.len() ==> (#[trigger] pixmaps[k]).height
                < pixmaps[tallest(pixmaps)].height,
    decreases pixmaps.len(),
{
    if pixmaps.len() > 1 {
        let front = pixmaps.drop_last();
        lemma_tallest(front);
        let before = tallest(front);
        assert(front[before] == pixmaps[before]);
        assert forall|k: int| 0 <= k < pixmaps.len() implies (#[trigger] pixmaps[k]).height
            <= pixmaps[tallest(pixmaps)].height by {
            if k < front.len() {
                assert(front[k].height <= front[before].height);
            }
        }
        assert forall|k: int| tallest(pixmaps) < k < pixmaps.len() implies (
        #[trigger] pixmaps[k]).height < pixmaps[tallest(pixmaps)].height by {
            if k < front.len() {
                assert(front[k].height < front[before].height);
            }
        }
    }
}

/// A pixmap can be drawn: it has a width and a height, a row of it fits
/// the row stride, and it holds all its pixels.
pub open spec fn drawable(pixmap: IconPixmapView) -> bool {
    &&& 0 < pixmap.width
    &&& 0 < pixmap.height
    &&& pixmap.width * 4 <= i32::MAX
    &&& pixmap.pixels.len() >= pixmap.width * 4 * pixmap.height
}

/// The image made of a pixmap, if it can be drawn: the same size, rows of
/// four bytes for each pixel, and the pixels converted to RGBA.
pub open spec fn image_of(pixmap: IconPixmapView) -> Option<PixbufView> {
    if drawable(pixmap) {
        Some(
            PixbufView {
                width: pixmap.width,
                height: pixmap.height,
                rowstride: (pixmap.width * 4) as i32,
                pixels: rgba_of(pixmap.pixels),
            },
        )
    } else {
        None
    }
}

/// The image made of an item's pixmaps: that of the tallest one.
pub open spec fn icon_image(pixmaps: Option<Seq<IconPixmapView>>) -> Option<PixbufView> {
    match pixmaps {
        Some(pixmaps) => if pixmaps.len() > 0 {
            image_of(pixmaps[tallest(pixmaps)])
        } else {
            None
        },
        None => None,
    }
}

impl IconPixmap {
    /// The image made of the pixmap, if it can be drawn.
    pub fn image(&self) -> (image: Option<Pixbuf>)
        ensures
            image_view(image) == image_of(self@),
    {
        if self.width <= 0 || self.height <= 0 || self.width > i32::MAX / 4 {
            return None;
        }
        let row: i64 = self.width as i64 * 4;
        assert(0 <= row * self.height <= 0x7fff_ffff * 0x7fff_ffff) by (nonlinear_arith)
            requires
                0 < row <= 0x7fff_ffff,
                0 < self.height <= 0x7fff_ffff,
        ;
        let needed: i64 = row * self.height as i64;
        if (self.pixels.len() as u128) < needed as u128 {
            return None;
        }
        Some(
            Pixbuf {
                width: self.width,
                height: self.height,
                rowstride: self.width * 4,
                pixels: argb2rgba(self.pixels.clone()),
            },
        )
    }
}

} // verus!
