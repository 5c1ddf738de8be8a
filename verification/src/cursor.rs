//! The pointer's picture: which image of a theme is shown at a time, and what is shown without one.

use crate::geometry::Point;
use crate::numbers;
use crate::numbers::read_u32;
use crate::state::lists::SurfaceId;
use crate::text;
use vstd::prelude::*;

verus! {

/// One image of a pointer; the pixels are four bytes each, row by row.
#[derive(Debug)]
pub struct CursorImage {
    /// The size that the image is meant for.
    pub size: u32,
    pub width: u32,
    pub height: u32,
    pub xhot: u32,
    pub yhot: u32,
    /// How long the image is shown before the next, in milliseconds.
    pub delay: u32,
    pub pixels_rgba: Vec<u8>,
}

/// A `CursorImage` as plain values.
pub struct Picture {
    pub size: u32,
    pub width: u32,
    pub height: u32,
    pub xhot: u32,
    pub yhot: u32,
    pub delay: u32,
    pub pixels: Seq<u8>,
}

impl View for CursorImage {
    type V = Picture;

    open spec fn view(&self) -> Picture {
        Picture {
            size: self.size,
            width: self.width,
            height: self.height,
            xhot: self.xhot,
            yhot: self.yhot,
            delay: self.delay,
            pixels: self.pixels_rgba@,
        }
    }
}

/// Images as plain values.
pub open spec fn pictures(images: Seq<CursorImage>) -> Seq<Picture> {
    Seq::new(images.len(), |i: int| images[i]@)
}

/// Images as plain values, where there are any.
pub open spec fn pictures_view(images: Option<Vec<CursorImage>>) -> Option<Seq<Picture>> {
    match images {
        Some(images) => Some(pictures(images@)),
        None => None,
    }
}

/// The images of a cursor file.
pub uninterp spec fn cursor_file_images(content: Seq<u8>) -> Option<Seq<Picture>>;

/// `xcursor::parser::parse_xcursor`: the images of a cursor file in the order of its table, or none
/// where it is no such file. The result depends on the bytes alone.
#[verifier::external_body]
fn parse_cursor_file(content: &Vec<u8>) -> (images: Option<Vec<CursorImage>>)
    ensures
        pictures_view(images) == cursor_file_images(content@),
{
    let images = xcursor::parser::parse_xcursor(content.as_slice())?;
    let convert = |image: xcursor::parser::Image| CursorImage {
        size: image.size,
        width: image.width,
        height: image.height,
        xhot: image.xhot,
        yhot: image.yhot,
        delay: image.delay,
        pixels_rgba: image.pixels_rgba,
    };
    Some(images.into_iter().map(convert).collect())
}

/// A copy of bytes.
fn copy_bytes(bytes: &Vec<u8>) -> (copy: Vec<u8>)
    ensures
        copy@ == bytes@,
{
    let mut copy: Vec<u8> = Vec::new();
    copy.extend_from_slice(bytes.as_slice());
    assert(copy@ =~= bytes@);
    copy
}

impl CursorImage {
    /// A copy of this image.
    pub fn copy(&self) -> (copy: CursorImage)
        ensures
            copy@ == self@,
    {
        CursorImage {
            size: self.size,
            width: self.width,
            height: self.height,
            xhot: self.xhot,
            yhot: self.yhot,
            delay: self.delay,
            pixels_rgba: copy_bytes(&self.pixels_rgba),
        }
    }
}

/// A number of 32 bits read as one with a sign.
pub open spec fn as_signed(value: u32) -> int {
    if value <= i32::MAX {
        value as int
    } else {
        value - 0x1_0000_0000
    }
}

/// How far a size is from another.
pub open spec fn size_distance(size: u32, other: u32) -> int {
    let gap = as_signed(size) - as_signed(other);
    if gap < 0 {
        -gap
    } else {
        gap
    }
}

fn signed(value: u32) -> (result: i64)
    ensures
        result == as_signed(value),
{
    if value <= 0x7fff_ffff {
        value as i64
    } else {
        value as i64 - 0x1_0000_0000
    }
}

fn distance(size: u32, other: u32) -> (result: i64)
    ensures
        result == size_distance(size, other),
{
    let gap: i64 = signed(size) - signed(other);
    if gap < 0 {
        -gap
    } else {
        gap
    }
}

/// The first of the images whose size is nearest.
pub open spec fn nearest(size: u32, images: Seq<Picture>) -> int
    decreases images.len(),
{
    if images.len() <= 1 {
        0
    } else {
        let before = nearest(size, images.drop_last());
        if size_distance(size, images.last().size) < size_distance(size, images[before].size) {
            images.len() - 1
        } else {
            before
        }
    }
}

/// Whether two images are equally large.
pub open spec fn same_extent(one: Picture, other: Picture) -> bool {
    one.width == other.width && one.height == other.height
}

/// The images that are as large as the one whose size is nearest.
pub open spec fn matching(images: Seq<Picture>, like: Picture) -> Seq<Picture>
    decreases images.len(),
{
    if images.len() == 0 {
        images
    } else if same_extent(images.last(), like) {
        matching(images.drop_last(), like).push(images.last())
    } else {
        matching(images.drop_last(), like)
    }
}

/// The images for a size.
pub open spec fn nearest_pictures(size: u32, images: Seq<Picture>) -> Seq<Picture> {
    matching(images, images[nearest(size, images)])
}

/// How long it takes to show all images.
pub open spec fn total_delay(images: Seq<Picture>) -> u32
    decreases images.len(),
{
    if images.len() == 0 {
        0
    } else {
        total_delay(images.drop_last()).wrapping_add(images.last().delay)
    }
}

/// The image that is shown when `millis` have passed since the first came up.
pub open spec fn shown_after(images: Seq<Picture>, millis: u32) -> Picture
    decreases images.len(),
{
    if images.len() == 0 || millis < images[0].delay {
        images[0]
    } else {
        shown_after(images.skip(1), (millis - images[0].delay) as u32)
    }
}

/// The image for a size at a time: the images of that size one after the other, again and again.
pub open spec fn frame_of(millis: u32, size: u32, images: Seq<Picture>) -> Picture {
    let round = nearest_pictures(size, images);
    if total_delay(round) == 0 {
        round[0]
    } else {
        shown_after(round, millis % total_delay(round))
    }
}

proof fn nearest_is_there(size: u32, images: Seq<Picture>)
    requires
        images.len() > 0,
    ensures
        0 <= nearest(size, images) < images.len(),
    decreases images.len(),
{
    if images.len() > 1 {
        nearest_is_there(size, images.drop_last());
    }
}

/// No image is nearer in size than the nearest.
pub proof fn none_is_nearer(size: u32, images: Seq<Picture>, other: int)
    requires
        0 <= other < images.len(),
    ensures
        0 <= nearest(size, images) < images.len(),
        size_distance(size, images[nearest(size, images)].size) <= size_distance(
            size,
            images[other].size,
        ),
    decreases images.len(),
{
    nearest_is_there(size, images);
    if images.len() > 1 {
        nearest_is_there(size, images.drop_last());
        if other < images.len() - 1 {
            none_is_nearer(size, images.drop_last(), other);
        } else {
            none_is_nearer(size, images.drop_last(), nearest(size, images.drop_last()));
        }
    }
}

proof fn matching_finds(images: Seq<Picture>, at: int)
    requires
        0 <= at < images.len(),
    ensures
        matching(images, images[at]).len() > 0,
    decreases images.len(),
{
    if at < images.len() - 1 {
        matching_finds(images.drop_last(), at);
    }
}

/// The delays of images, added up.
spec fn delay_sum(images: Seq<Picture>) -> nat
    decreases images.len(),
{
    if images.len() == 0 {
        0
    } else {
        images[0].delay as nat + delay_sum(images.skip(1))
    }
}

proof fn delay_sum_last(images: Seq<Picture>)
    requires
        images.len() > 0,
    ensures
        delay_sum(images) == delay_sum(images.drop_last()) + images.last().delay,
    decreases images.len(),
{
    if images.len() > 1 {
        delay_sum_last(images.skip(1));
        assert(images.skip(1).drop_last() =~= images.drop_last().skip(1));
    } else {
        assert(images.skip(1) =~= seq![]);
        assert(images.drop_last() =~= seq![]);
    }
}

proof fn total_is_within_sum(images: Seq<Picture>)
    ensures
        total_delay(images) <= delay_sum(images),
    decreases images.len(),
{
    if images.len() > 0 {
        total_is_within_sum(images.drop_last());
        delay_sum_last(images);
    }
}

fn nearest_index(size: u32, images: &Vec<CursorImage>) -> (index: usize)
    requires
        images@.len() > 0,
    ensures
        index == nearest(size, pictures(images@)),
        index < images@.len(),
{
    let ghost all = pictures(images@);
    let mut best: usize = 0;
    let mut index: usize = 1;
    while index < images.len()
        invariant
            1 <= index <= images.len(),
            best < index,
            all == pictures(images@),
            best == nearest(size, all.take(index as int)),
        decreases images.len() - index,
    {
        assert(all.take(index + 1).drop_last() =~= all.take(index as int));
        if distance(size, images[index].size) < distance(size, images[best].size) {
            best = index;
        }
        index = index + 1;
    }
    assert(all.take(all.len() as int) =~= all);
    best
}

/// The places of the images for a size.
fn nearest_images(size: u32, images: &Vec<CursorImage>) -> (places: Vec<usize>)
    requires
        images@.len() > 0,
    ensures
        forall|i: int| 0 <= i < places@.len() ==> #[trigger] places@[i] < images@.len(),
        Seq::new(places@.len(), |i: int| images@[places@[i] as int]@) == nearest_pictures(
            size,
            pictures(images@),
        ),
{
    let ghost all = pictures(images@);
    let best: usize = nearest_index(size, images);
    let ghost like = all[best as int];
    let mut places: Vec<usize> = Vec::new();
    let mut index: usize = 0;
    assert(all.take(0) =~= seq![]);
    assert(Seq::new(0, |i: int| images@[places@[i] as int]@) =~= seq![]);
    while index < images.len()
        invariant
            index <= images.len(),
            best < images.len(),
            all == pictures(images@),
            like == all[best as int],
            forall|i: int| 0 <= i < places@.len() ==> #[trigger] places@[i] < images@.len(),
            Seq::new(places@.len(), |i: int| images@[places@[i] as int]@) == matching(
                all.take(index as int),
                like,
            ),
        decreases images.len() - index,
    {
        assert(all.take(index + 1).drop_last() =~= all.take(index as int));
        let ghost before = Seq::new(places@.len(), |i: int| images@[places@[i] as int]@);
        if images[index].width == images[best].width && images[index].height
            == images[best].height {
            places.push(index);
            assert(Seq::new(places@.len(), |i: int| images@[places@[i] as int]@) =~= before.push(
                all[index as int],
            ));
        }
        index = index + 1;
    }
    assert(all.take(all.len() as int) =~= all);
    places
}

/// The image for a size at a time.
pub fn frame(millis: u32, size: u32, images: &Vec<CursorImage>) -> (image: CursorImage)
    requires
        images@.len() > 0,
    ensures
        image@ == frame_of(millis, size, pictures(images@)),
{
    let places = nearest_images(size, images);
    let ghost round = nearest_pictures(size, pictures(images@));
    proof {
        nearest_is_there(size, pictures(images@));
        matching_finds(pictures(images@), nearest(size, pictures(images@)));
    }
    let mut total: u32 = 0;
    let mut index: usize = 0;
    assert(round.take(0) =~= seq![]);
    while index < places.len()
        invariant
            index <= places.len(),
            places.len() == round.len(),
            forall|i: int| 0 <= i < places@.len() ==> #[trigger] places@[i] < images@.len(),
            forall|i: int|
                0 <= i < places@.len() ==> images@[#[trigger] places@[i] as int]@ == round[i],
            total == total_delay(round.take(index as int)),
        decreases places.len() - index,
    {
        assert(round.take(index + 1).drop_last() =~= round.take(index as int));
        total = total.wrapping_add(images[places[index]].delay);
        index = index + 1;
    }
    assert(round.take(round.len() as int) =~= round);
    if total == 0 {
        return images[places[0]].copy();
    }
    let mut rest: u32 = millis % total;
    let mut at: usize = 0;
    proof {
        total_is_within_sum(round);
    }
    assert(round.skip(0) =~= round);
    while at + 1 < places.len()
        invariant
            at < places.len(),
            places.len() == round.len(),
            forall|i: int| 0 <= i < places@.len() ==> #[trigger] places@[i] < images@.len(),
            forall|i: int|
                0 <= i < places@.len() ==> images@[#[trigger] places@[i] as int]@ == round[i],
            rest < delay_sum(round.skip(at as int)),
            shown_after(round.skip(at as int), rest) == shown_after(
                round,
                (millis % total) as u32,
            ),
            total != 0,
            total == total_delay(round),
            round == nearest_pictures(size, pictures(images@)),
        decreases places.len() - at,
    {
        let ghost left = round.skip(at as int);
        assert(left[0] == round[at as int]);
        assert(left.skip(1) =~= round.skip(at + 1));
        let delay: u32 = images[places[at]].delay;
        if rest < delay {
            return images[places[at]].copy();
        }
        rest = rest - delay;
        at = at + 1;
    }
    let ghost left = round.skip(at as int);
    assert(left[0] == round[at as int]);
    assert(left.len() == 1);
    assert(left.skip(1).len() == 0);
    assert(delay_sum(left.skip(1)) == 0);
    assert(rest < left[0].delay);
    images[places[at]].copy()
}

/// The width and the height of the picture that is shown without a theme.
pub const FALLBACK_EXTENT: usize = 24;

/// Whether a pixel is part of the arrow.
pub open spec fn in_arrow(x: int, y: int) -> bool {
    (0 <= y < 16 && 0 <= x <= y / 2 + 1) || (10 <= y < 23 && 4 <= x <= 8)
}

/// Whether a pixel is next to the arrow.
pub open spec fn beside_arrow(x: int, y: int) -> bool {
    !in_arrow(x, y) && (in_arrow(x - 1, y - 1) || in_arrow(x, y - 1) || in_arrow(x + 1, y - 1)
        || in_arrow(x - 1, y) || in_arrow(x + 1, y) || in_arrow(x - 1, y + 1) || in_arrow(x, y + 1)
        || in_arrow(x + 1, y + 1))
}

/// The bytes of a pixel: the arrow is black, what is next to it white, and the rest clear.
pub open spec fn fallback_byte(x: int, y: int, channel: int) -> u8 {
    if in_arrow(x, y) {
        if channel == 3 {
            255
        } else {
            0
        }
    } else if beside_arrow(x, y) {
        255
    } else {
        0
    }
}

/// The picture that is shown without a theme.
pub open spec fn fallback_picture() -> Picture {
    Picture {
        size: 24,
        width: 24,
        height: 24,
        xhot: 1,
        yhot: 1,
        delay: 1,
        pixels: Seq::new(
            2304,
            |i: int| fallback_byte((i / 4) % 24, (i / 4) / 24, i % 4),
        ),
    }
}

fn arrow_at(x: i32, y: i32) -> (result: bool)
    ensures
        result == in_arrow(x as int, y as int),
{
    (0 <= y && y < 16 && 0 <= x && x <= y / 2 + 1) || (10 <= y && y < 23 && 4 <= x && x <= 8)
}

fn outline_at(x: i32, y: i32) -> (result: bool)
    requires
        0 <= x < 24,
        0 <= y < 24,
    ensures
        result == beside_arrow(x as int, y as int),
{
    !arrow_at(x, y) && (arrow_at(x - 1, y - 1) || arrow_at(x, y - 1) || arrow_at(x + 1, y - 1)
        || arrow_at(x - 1, y) || arrow_at(x + 1, y) || arrow_at(x - 1, y + 1) || arrow_at(x, y + 1)
        || arrow_at(x + 1, y + 1))
}

/// The picture that is shown without a theme.
pub fn fallback_cursor_image() -> (image: CursorImage)
    ensures
        image@ == fallback_picture(),
{
    let mut pixels: Vec<u8> = Vec::new();
    let mut at: usize = 0;
    while at < 2304
        invariant
            at <= 2304,
            pixels.len() == at,
            forall|i: int|
                0 <= i < at ==> #[trigger] pixels[i] == fallback_byte(
                    (i / 4) % 24,
                    (i / 4) / 24,
                    i % 4,
                ),
        decreases 2304 - at,
    {
        let pixel: usize = at / 4;
        let x: i32 = (pixel % 24) as i32;
        let y: i32 = (pixel / 24) as i32;
        let byte: u8 = if arrow_at(x, y) {
            if at % 4 == 3 {
                255
            } else {
                0
            }
        } else if outline_at(x, y) {
            255
        } else {
            0
        };
        pixels.push(byte);
        at = at + 1;
    }
    let image = CursorImage {
        size: 24,
        width: 24,
        height: 24,
        xhot: 1,
        yhot: 1,
        delay: 1,
        pixels_rgba: pixels,
    };
    assert(image@.pixels =~= fallback_picture().pixels);
    image
}

/// The size that pointers are meant to have: what the variable says, or else 24.
pub open spec fn theme_size(value: Option<Seq<char>>) -> u32 {
    match value {
        Some(value) => match numbers::integer(value, 0, u32::MAX as int) {
            Ok(size) => size as u32,
            Err(_) => 24,
        },
        None => 24,
    }
}

/// The size that pointers are meant to have: what the variable says, or else 24.
pub fn cursor_size_from_env(value: Option<&str>) -> (size: u32)
    ensures
        size == theme_size(text::slice_view(value)),
{
    match value {
        Some(value) => match read_u32(value) {
            Ok(size) => size,
            Err(_) => 24,
        },
        None => 24,
    }
}

/// The images of a pointer theme, and the size that is wanted.
#[derive(Debug)]
pub struct CursorThemeManager {
    pub icons: Vec<CursorImage>,
    pub size: u32,
}

/// Why there is no theme.
#[derive(Clone, Copy, Debug, PartialEq, Eq, Structural)]
pub enum CursorFailure {
    /// There is no file with the pointer.
    NoFile,
    /// The file is none with a pointer.
    BadFile,
}

/// The images that are read from a cursor file, or why there are none.
pub open spec fn loaded(content: Option<Seq<u8>>, read: Option<Seq<Picture>>) -> Result<
    Seq<Picture>,
    CursorFailure,
> {
    match content {
        Some(_) => match read {
            Some(images) => Ok(images),
            None => Err(CursorFailure::BadFile),
        },
        None => Err(CursorFailure::NoFile),
    }
}

/// The images that are shown: those of the theme, or else the one that is shown without.
pub open spec fn icons_of(loaded: Result<Seq<Picture>, CursorFailure>) -> Seq<Picture> {
    match loaded {
        Ok(images) => images,
        Err(_) => seq![fallback_picture()],
    }
}

/// The content of a file as plain values, where there is one.
pub open spec fn content_view(content: Option<&Vec<u8>>) -> Option<Seq<u8>> {
    match content {
        Some(content) => Some(content@),
        None => None,
    }
}

/// The images of a cursor file, where it could be read.
pub fn load_default_cursor(content: Option<&Vec<u8>>) -> (images: Result<
    Vec<CursorImage>,
    CursorFailure,
>)
    ensures
        (match images {
            Ok(images) => Ok(pictures(images@)),
            Err(failure) => Err(failure),
        }) == loaded(
            content_view(content),
            match content {
                Some(content) => cursor_file_images(content@),
                None => None,
            },
        ),
{
    match content {
        Some(content) => match parse_cursor_file(content) {
            Some(images) => Ok(images),
            None => Err(CursorFailure::BadFile),
        },
        None => Err(CursorFailure::NoFile),
    }
}

/// A size at a scale, as large as there can be at most.
pub open spec fn scaled_size(size: u32, scale: u32) -> u32 {
    if size * scale <= u32::MAX {
        (size * scale) as u32
    } else {
        u32::MAX
    }
}

fn scale_size(size: u32, scale: u32) -> (scaled: u32)
    ensures
        scaled == scaled_size(size, scale),
{
    match size.checked_mul(scale) {
        Some(scaled) => scaled,
        None => u32::MAX,
    }
}

impl CursorThemeManager {
    /// A theme with these images, or the picture that is shown without one.
    pub fn from_images(images: Result<Vec<CursorImage>, CursorFailure>, size: u32) -> (manager:
        CursorThemeManager)
        ensures
            manager.size == size,
            pictures(manager.icons@) == icons_of(
                match images {
                    Ok(images) => Ok(pictures(images@)),
                    Err(failure) => Err(failure),
                },
            ),
    {
        match images {
            Ok(images) => CursorThemeManager { icons: images, size },
            Err(_) => {
                let mut icons: Vec<CursorImage> = Vec::new();
                icons.push(fallback_cursor_image());
                assert(pictures(icons@) =~= seq![fallback_picture()]);
                CursorThemeManager { icons, size }
            },
        }
    }

    /// The theme whose pointer has this file, where it could be read, at the size that the variable
    /// says.
    pub fn load(content: Option<&Vec<u8>>, size: Option<&str>) -> (manager: CursorThemeManager)
        ensures
            manager.size == theme_size(text::slice_view(size)),
            pictures(manager.icons@) == icons_of(
                loaded(
                    content_view(content),
                    match content {
                        Some(content) => cursor_file_images(content@),
                        None => None,
                    },
                ),
            ),
    {
        CursorThemeManager::from_images(load_default_cursor(content), cursor_size_from_env(size))
    }

    /// The image at a scale and a time.
    pub fn image(&self, scale: u32, millis: u32) -> (image: CursorImage)
        requires
            self.icons@.len() > 0,
        ensures
            image@ == frame_of(
                millis,
                scaled_size(self.size, scale),
                pictures(self.icons@),
            ),
    {
        frame(millis, scale_size(self.size, scale), &self.icons)
    }
}

/// The number that an image in memory is known by.
pub type BufferId = u64;

/// What the pointer is to look like.
#[derive(Clone, Copy, Debug, PartialEq, Eq, Structural)]
pub enum CursorImageStatus {
    /// It is not to be seen.
    Hidden,
    /// It looks as the theme says.
    Named,
    /// A client draws it.
    Surface(SurfaceId),
}

impl CursorImageStatus {
    /// What the pointer looks like where nobody says so.
    pub fn default_named() -> (status: CursorImageStatus)
        ensures
            status == CursorImageStatus::Named,
    {
        CursorImageStatus::Named
    }

    /// The status once it is known whether the surface that draws the pointer is still there.
    pub open spec fn lasting(self, alive: bool) -> CursorImageStatus {
        if self is Surface && !alive {
            CursorImageStatus::Named
        } else {
            self
        }
    }

    /// The status once it is known whether the surface that draws the pointer is still there.
    pub fn outlast(self, alive: bool) -> (status: CursorImageStatus)
        ensures
            status == self.lasting(alive),
    {
        match self {
            CursorImageStatus::Surface(_) if !alive => CursorImageStatus::default_named(),
            status => status,
        }
    }

    /// The place within the picture that is at the pointer: what a client says of its surface.
    pub fn hotspot(self, said: Option<Point>) -> (hotspot: Point)
        ensures
            hotspot == (if self is Surface && said is Some {
                said.unwrap()
            } else {
                Point { x: 0, y: 0 }
            }),
    {
        match (self, said) {
            (CursorImageStatus::Surface(_), Some(hotspot)) => hotspot,
            _ => Point { x: 0, y: 0 },
        }
    }
}

/// What is drawn for the pointer.
#[derive(Clone, Copy, Debug, PartialEq, Eq, Structural)]
pub enum PointerRenderElement {
    Surface(SurfaceId),
    Memory(BufferId),
}

/// The pointer: the theme's image of it, and what it is to look like.
#[derive(Clone, Copy, Debug)]
pub struct PointerElement {
    pub buffer: Option<BufferId>,
    pub status: CursorImageStatus,
}

impl Default for PointerElement {
    fn default() -> (element: PointerElement)
        ensures
            element == (PointerElement { buffer: None, status: CursorImageStatus::Named }),
    {
        PointerElement { buffer: None, status: CursorImageStatus::default_named() }
    }
}

impl PointerElement {
    /// Says what the pointer is to look like.
    pub fn set_status(&mut self, status: CursorImageStatus)
        ensures
            *final(self) == (PointerElement { status, ..*old(self) }),
    {
        self.status = status;
    }

    /// Gives the theme's image of the pointer.
    pub fn set_buffer(&mut self, buffer: BufferId)
        ensures
            *final(self) == (PointerElement { buffer: Some(buffer), ..*old(self) }),
    {
        self.buffer = Some(buffer);
    }

    /// What is drawn for the pointer, where anything is.
    pub fn render_elements(&self) -> (element: Option<PointerRenderElement>)
        ensures
            element == match self.status {
                CursorImageStatus::Hidden => None,
                CursorImageStatus::Named => match self.buffer {
                    Some(buffer) => Some(PointerRenderElement::Memory(buffer)),
                    None => None,
                },
                CursorImageStatus::Surface(surface) => Some(
                    PointerRenderElement::Surface(surface),
                ),
            },
    {
        match self.status {
            CursorImageStatus::Hidden => None,
            CursorImageStatus::Named => match self.buffer {
                Some(buffer) => Some(PointerRenderElement::Memory(buffer)),
                None => None,
            },
            CursorImageStatus::Surface(surface) => Some(PointerRenderElement::Surface(surface)),
        }
    }
}

/// An image that is in memory.
#[derive(Debug)]
pub struct KeptImage {
    pub image: CursorImage,
    pub buffer: BufferId,
}

/// A `KeptImage` as plain values.
pub struct KeptPicture {
    pub picture: Picture,
    pub buffer: BufferId,
}

/// The images that are in memory.
#[derive(Debug)]
pub struct PointerImages {
    pub images: Vec<KeptImage>,
}

impl View for PointerImages {
    type V = Seq<KeptPicture>;

    open spec fn view(&self) -> Seq<KeptPicture> {
        Seq::new(
            self.images@.len(),
            |i: int|
                KeptPicture { picture: self.images@[i].image@, buffer: self.images@[i].buffer },
        )
    }
}

/// The number that a picture is kept by, where it is.
pub open spec fn buffer_of(kept: Seq<KeptPicture>, picture: Picture) -> Option<BufferId>
    decreases kept.len(),
{
    if kept.len() == 0 {
        None
    } else if kept[0].picture == picture {
        Some(kept[0].buffer)
    } else {
        buffer_of(kept.skip(1), picture)
    }
}

fn same_bytes(one: &Vec<u8>, other: &Vec<u8>) -> (same: bool)
    ensures
        same == (one@ == other@),
{
    if one.len() != other.len() {
        return false;
    }
    let mut index: usize = 0;
    while index < one.len()
        invariant
            index <= one.len(),
            one.len() == other.len(),
            forall|i: int| 0 <= i < index ==> one@[i] == other@[i],
        decreases one.len() - index,
    {
        if one[index] != other[index] {
            assert(one@[index as int] != other@[index as int]);
            return false;
        }
        index = index + 1;
    }
    assert(one@ =~= other@);
    true
}

fn same_image(one: &CursorImage, other: &CursorImage) -> (same: bool)
    ensures
        same == (one@ == other@),
{
    one.size == other.size && one.width == other.width && one.height == other.height && one.xhot
        == other.xhot && one.yhot == other.yhot && one.delay == other.delay && same_bytes(
        &one.pixels_rgba,
        &other.pixels_rgba,
    )
}

impl PointerImages {
    /// Nothing is in memory.
    pub fn new() -> (images: PointerImages)
        ensures
            images@ == Seq::<KeptPicture>::empty(),
    {
        let images = PointerImages { images: Vec::new() };
        assert(images@ =~= Seq::<KeptPicture>::empty());
        images
    }

    /// The number that an image is kept by; one that is not kept yet is from now on, by `fresh`.
    pub fn buffer_for(&mut self, image: CursorImage, fresh: BufferId) -> (buffer: BufferId)
        ensures
            buffer == (match buffer_of(old(self)@, image@) {
                Some(buffer) => buffer,
                None => fresh,
            }),
            final(self)@ == (if buffer_of(old(self)@, image@) is Some {
                old(self)@
            } else {
                old(self)@.push(KeptPicture { picture: image@, buffer: fresh })
            }),
    {
        let ghost kept = self@;
        let mut index: usize = 0;
        assert(kept.skip(0) =~= kept);
        while index < self.images.len()
            invariant
                index <= self.images.len(),
                kept == self@,
                self@ == old(self)@,
                buffer_of(kept, image@) == buffer_of(kept.skip(index as int), image@),
            decreases self.images.len() - index,
        {
            assert(kept.skip(index as int).skip(1) =~= kept.skip(index + 1));
            assert(kept.skip(index as int)[0] == kept[index as int]);
            if same_image(&self.images[index].image, &image) {
                return self.images[index].buffer;
            }
            index = index + 1;
        }
        let ghost picture = image@;
        self.images.push(KeptImage { image, buffer: fresh });
        assert(self@ =~= kept.push(KeptPicture { picture, buffer: fresh }));
        fresh
    }
}

/// An image that is kept is not put into memory again: it keeps its number.
pub proof fn image_is_kept_once(kept: Seq<KeptPicture>, picture: Picture, fresh: BufferId)
    requires
        buffer_of(kept, picture) is None,
    ensures
        buffer_of(kept.push(KeptPicture { picture, buffer: fresh }), picture) == Some(fresh),
        forall|other: Picture|
            buffer_of(kept, other) is Some ==> #[trigger] buffer_of(
                kept.push(KeptPicture { picture, buffer: fresh }),
                other,
            ) == buffer_of(kept, other),
    decreases kept.len(),
{
    let longer = kept.push(KeptPicture { picture, buffer: fresh });
    if kept.len() > 0 {
        image_is_kept_once(kept.skip(1), picture, fresh);
        assert(longer.skip(1) =~= kept.skip(1).push(KeptPicture { picture, buffer: fresh }));
        assert forall|other: Picture|
            buffer_of(kept, other) is Some implies #[trigger] buffer_of(longer, other) == buffer_of(
            kept,
            other,
        ) by {
            if kept[0].picture != other {
                assert(buffer_of(kept.skip(1), other) is Some);
                assert(buffer_of(longer.skip(1), other) == buffer_of(kept.skip(1), other));
                assert(longer[0] == kept[0]);
            }
        }
    }
}

/// A pointer that a client no longer draws is drawn as the theme says.
pub proof fn pointer_outlives_its_client(status: CursorImageStatus)
    ensures
        !(status.lasting(false) is Surface),
        status.lasting(true) == status,
{
}

/// Without a theme there is still something to show.
pub proof fn something_is_shown(failure: CursorFailure)
    ensures
        icons_of(Err(failure)).len() > 0,
{
}

} // verus!
