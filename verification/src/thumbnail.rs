//! The thumbnail pipeline and its keyed cache.
//!
//! A thumbnail is made from the raw bytes of an image file: decode,
//! resize so the larger dimension is capped, then center-crop to a
//! square. An unreadable file yields a blank placeholder instead of an
//! error, so one bad file never blocks a batch.
//!
//! The cache maps wallpaper identifiers to thumbnails. One
//! reconciliation pass inserts the freshly decoded thumbnails and then
//! evicts every entry whose key is no longer in the live wallpaper list,
//! which bounds the cache to the live wallpapers and makes reordering
//! free (keys are identifiers, not positions). Overlapping passes are
//! serialized by the caller: one pass in flight at a time, each against
//! its own snapshot of the wallpaper list.

use vstd::prelude::*;

use std::collections::HashMap;

use crate::model::Wallpaper;

verus! {

broadcast use vstd::std_specs::hash::group_hash_axioms;

/// Cap on either dimension of a resized image: the larger source
/// dimension is scaled down (or up) to at most this many pixels before
/// cropping.
pub const THUMBNAIL_BOUND: u32 = 512;

/// Side length of the blank placeholder used for files that do not
/// decode.
pub const PLACEHOLDER_SIDE: u32 = 128;

/// The RGBA pixel bytes and dimensions that the given file bytes decode
/// to, if they decode at all. Decoding is a function of the bytes alone.
pub uninterp spec fn decoded_image(data: Seq<u8>) -> Option<(Seq<u8>, u32, u32)>;

/// Relies on `image::load_from_memory` (decoding is a function of the
/// bytes alone, named by [`decoded_image`]) and on
/// `DynamicImage::to_rgba8` and `ImageBuffer::into_raw`: the returned
/// buffer holds 4 bytes per pixel of the decoded dimensions.
#[verifier::external_body]
pub(crate) fn decode_rgba(data: &Vec<u8>) -> (r: Option<(Vec<u8>, u32, u32)>)
    ensures
        (match r {
            Some((px, w, h)) => decoded_image(data@) == Some((px@, w, h)) && px@.len() == 4 * w
                * h,
            None => decoded_image(data@) is None,
        }),
{
    match image::load_from_memory(data) {
        Ok(img) => {
            let buf = img.to_rgba8();
            let w = buf.width();
            let h = buf.height();
            Some((buf.into_raw(), w, h))
        },
        Err(_) => None,
    }
}

/// Relies on `DynamicImage::resize` with the Gaussian filter: the result
/// is scaled to the maximum size that fits within `bound` on both axes,
/// preserving aspect ratio, each dimension at least 1; and on
/// `ImageBuffer::from_raw`/`to_rgba8`/`into_raw` for the 4-bytes-per-
/// pixel raw form on both sides of the call.
#[verifier::external_body]
fn resize_to_fit(px: Vec<u8>, w: u32, h: u32, bound: u32) -> (r: (Vec<u8>, u32, u32))
    requires
        px@.len() == 4 * w * h,
        1 <= w,
        1 <= h,
        1 <= bound,
    ensures
        r.0@.len() == 4 * r.1 * r.2,
        1 <= r.1 <= bound,
        1 <= r.2 <= bound,
{
    let buf: image::RgbaImage =
        image::ImageBuffer::from_raw(w, h, px).expect("buffer length matches dimensions");
    let resized = image::DynamicImage::ImageRgba8(buf).resize(
        bound,
        bound,
        image::imageops::FilterType::Gaussian,
    );
    let out = resized.to_rgba8();
    let rw = out.width();
    let rh = out.height();
    (out.into_raw(), rw, rh)
}

/// The side of the largest centered square of a `w` by `h` image.
pub open spec fn crop_side(w: u32, h: u32) -> int {
    vstd::math::min(w as int, h as int)
}

/// The raw RGBA bytes of the largest centered square of the `w` by `h`
/// image `px`: byte `ch` of the pixel at `(col, row)` of the crop is
/// byte `ch` of the source pixel at `(col + (w - side) / 2,
/// row + (h - side) / 2)`.
pub open spec fn cropped(px: Seq<u8>, w: u32, h: u32) -> Seq<u8> {
    let side = crop_side(w, h);
    let x0 = (w - side) / 2;
    let y0 = (h - side) / 2;
    Seq::new(
        (4 * side * side) as nat,
        |i: int|
            {
                let q = i / 4;
                let ch = i % 4;
                let row = q / side;
                let col = q % side;
                px[((row + y0) * w + (col + x0)) * 4 + ch]
            },
    )
}

/// Center-crops a raw RGBA image to its largest centered square, using
/// `crop_size = min(w, h)` and an offset of half the excess on each
/// axis. The result is always square, whatever the source aspect ratio.
pub fn crop_square(px: &Vec<u8>, w: u32, h: u32) -> (r: (Vec<u8>, u32))
    requires
        px@.len() == 4 * w * h,
        1 <= w,
        1 <= h,
    ensures
        r.1 == crop_side(w, h),
        r.0@ == cropped(px@, w, h),
        r.0@.len() == 4 * r.1 * r.1,
{
    let side = if w < h {
        w
    } else {
        h
    };
    let x0 = (w - side) / 2;
    let y0 = (h - side) / 2;
    let ghost target = cropped(px@, w, h);
    proof {
        vstd::std_specs::vec::axiom_spec_len(px);
        assert(target.len() == 4 * side * side);
    }
    let mut out: Vec<u8> = Vec::new();
    let mut row: u32 = 0;
    while row < side
        invariant
            px@.len() == 4 * w * h,
            px@.len() <= usize::MAX,
            1 <= w,
            1 <= h,
            side == crop_side(w, h),
            x0 == ((w - side) as int) / 2,
            y0 == ((h - side) as int) / 2,
            target == cropped(px@, w, h),
            target.len() == 4 * side * side,
            row <= side,
            out@.len() == 4 * (side * row),
            forall|i: int| 0 <= i < out@.len() ==> out@[i] == target[i],
        decreases side - row,
    {
        let mut col: u32 = 0;
        proof {
            assert(side * row + col == side * row);
        }
        while col < side
            invariant
                px@.len() == 4 * w * h,
                px@.len() <= usize::MAX,
                1 <= w,
                1 <= h,
                side == crop_side(w, h),
                x0 == ((w - side) as int) / 2,
                y0 == ((h - side) as int) / 2,
                target == cropped(px@, w, h),
                target.len() == 4 * side * side,
                row < side,
                col <= side,
                out@.len() == 4 * (side * row + col),
            forall|i: int| 0 <= i < out@.len() ==> out@[i] == target[i],
            decreases side - col,
        {
            let ghost s = side as int;
            let ghost rr = row as int;
            let ghost cc = col as int;
            let ghost q = s * rr + cc;
            proof {
                assert(q < s * s && 0 <= (rr + y0) * w + (cc + x0) && 4 * ((rr + y0) * w + (cc
                    + x0)) + 3 < 4 * w * h) by (nonlinear_arith)
                    requires
                        0 <= cc < s,
                        0 <= rr < s,
                        q == s * rr + cc,
                        s <= w,
                        s <= h,
                        0 <= x0 <= w - s,
                        0 <= y0 <= h - s,
                {}
                assert(q / s == rr && q % s == cc) by (nonlinear_arith)
                    requires
                        0 <= cc < s,
                        0 <= rr,
                        0 < s,
                        q == s * rr + cc,
                {}
                assert((4 * q) / 4 == q && (4 * q) % 4 == 0) by (nonlinear_arith)
                    requires
                        0 <= q,
                {}
                assert((4 * q + 1) / 4 == q && (4 * q + 1) % 4 == 1) by (nonlinear_arith)
                    requires
                        0 <= q,
                {}
                assert((4 * q + 2) / 4 == q && (4 * q + 2) % 4 == 2) by (nonlinear_arith)
                    requires
                        0 <= q,
                {}
                assert((4 * q + 3) / 4 == q && (4 * q + 3) % 4 == 3) by (nonlinear_arith)
                    requires
                        0 <= q,
                {}
                assert(4 * q + 3 < 4 * (s * s) && 4 * (s * s) == 4 * s * s) by (nonlinear_arith)
                    requires
                        0 <= q < s * s,
                {}
            }
            let base: usize = 4 * ((row + y0) as usize * (w as usize) + (col + x0) as usize);
            proof {
                assert(base + 3 < px@.len());
                assert(((rr + y0) * w + (cc + x0)) * 4 == base) by (nonlinear_arith)
                    requires
                        base == 4 * ((rr + y0) * w + (cc + x0)),
                {}
                assert(target[4 * q] == px@[base as int]);
                assert(target[4 * q + 1] == px@[base as int + 1]);
                assert(target[4 * q + 2] == px@[base as int + 2]);
                assert(target[4 * q + 3] == px@[base as int + 3]);
            }
            out.push(px[base]);
            out.push(px[base + 1]);
            out.push(px[base + 2]);
            out.push(px[base + 3]);
            proof {
                assert(out@.len() == 4 * q + 4);
                assert(4 * (side * row + (col + 1)) == 4 * q + 4) by (nonlinear_arith)
                    requires
                        q == side * row + col,
                {}
            }
            col += 1;
        }
        proof {
            assert(4 * (side * row + side) == 4 * (side * (row + 1))) by (nonlinear_arith);
        }
        row += 1;
    }
    proof {
        assert(4 * (side * side) == 4 * side * side) by (nonlinear_arith);
        assert(out@ =~= target);
    }
    (out, side)
}

/// A decoded, resized, square thumbnail together with the original
/// (pre-resize) pixel dimensions of its source image.
#[derive(Debug, Clone)]
pub struct Thumbnail {
    pixels: Vec<u8>,
    side: u32,
    original_width: u32,
    original_height: u32,
}

impl Thumbnail {
    pub closed spec fn spec_pixels(&self) -> Seq<u8> {
        self.pixels@
    }

    pub closed spec fn spec_side(&self) -> u32 {
        self.side
    }

    pub closed spec fn spec_original_width(&self) -> u32 {
        self.original_width
    }

    pub closed spec fn spec_original_height(&self) -> u32 {
        self.original_height
    }

    /// A thumbnail is square: its buffer holds 4 bytes per pixel of a
    /// `side` by `side` image.
    pub open spec fn wf(&self) -> bool {
        self.spec_pixels().len() == 4 * self.spec_side() * self.spec_side()
    }

    pub fn new(pixels: Vec<u8>, side: u32, original_width: u32, original_height: u32) -> (t:
        Thumbnail)
        requires
            pixels@.len() == 4 * side * side,
        ensures
            t.wf(),
            t.spec_pixels() == pixels@,
            t.spec_side() == side,
            t.spec_original_width() == original_width,
            t.spec_original_height() == original_height,
    {
        Thumbnail { pixels, side, original_width, original_height }
    }

    /// The raw RGBA bytes of the square thumbnail.
    pub fn pixels(&self) -> (r: &Vec<u8>)
        ensures
            r@ == self.spec_pixels(),
    {
        &self.pixels
    }

    /// The side length of the square thumbnail.
    pub fn side(&self) -> (r: u32)
        ensures
            r == self.spec_side(),
    {
        self.side
    }

    /// The pixel dimensions of the source image before any resize, or
    /// `(0, 0)` for the placeholder of an unreadable file.
    pub fn original_size(&self) -> (r: (u32, u32))
        ensures
            r.0 == self.spec_original_width(),
            r.1 == self.spec_original_height(),
    {
        (self.original_width, self.original_height)
    }
}

/// Whether `t` is the blank placeholder recorded for a file that did not
/// decode: a black square of [`PLACEHOLDER_SIDE`], original dimensions
/// `(0, 0)`.
pub open spec fn is_placeholder(t: Thumbnail) -> bool {
    &&& t.spec_side() == PLACEHOLDER_SIDE
    &&& t.spec_original_width() == 0
    &&& t.spec_original_height() == 0
    &&& forall|i: int| 0 <= i < t.spec_pixels().len() ==> t.spec_pixels()[i] == 0
}

/// Builds the thumbnail for one image file given as its raw bytes: on
/// decode success, record the original dimensions, resize so the larger
/// dimension is capped at [`THUMBNAIL_BOUND`], and center-crop to a
/// square; on decode failure (or degenerate zero dimensions), a blank
/// placeholder with original dimensions `(0, 0)`.
pub fn make_thumbnail(data: &Vec<u8>) -> (t: Thumbnail)
    ensures
        t.wf(),
        1 <= t.spec_side(),
        (match decoded_image(data@) {
            Some((_px, w, h)) => {
                if 1 <= w && 1 <= h {
                    &&& t.spec_original_width() == w
                    &&& t.spec_original_height() == h
                    &&& t.spec_side() <= THUMBNAIL_BOUND
                } else {
                    is_placeholder(t)
                }
            },
            None => is_placeholder(t),
        }),
{
    match decode_rgba(data) {
        Some((px, w, h)) => {
            if w >= 1 && h >= 1 {
                let (resized, rw, rh) = resize_to_fit(px, w, h, THUMBNAIL_BOUND);
                let (square, side) = crop_square(&resized, rw, rh);
                proof {
                    assert(4 * (side as int) * side == 4 * ((side as int) * side))
                        by (nonlinear_arith);
                }
                Thumbnail::new(square, side, w, h)
            } else {
                placeholder_thumbnail()
            }
        },
        None => placeholder_thumbnail(),
    }
}

/// The blank placeholder: a black RGBA square of [`PLACEHOLDER_SIDE`].
fn placeholder_thumbnail() -> (t: Thumbnail)
    ensures
        t.wf(),
        is_placeholder(t),
        1 <= t.spec_side(),
{
    let pixels: Vec<u8> = vec![0u8; 4 * (PLACEHOLDER_SIDE * PLACEHOLDER_SIDE) as usize];
    Thumbnail::new(pixels, PLACEHOLDER_SIDE, 0, 0)
}

/// The set of wallpaper identifiers of a wallpaper list.
pub open spec fn wallpaper_ids(ws: Seq<Wallpaper>) -> Set<u128> {
    Set::new(|id: u128| exists|k: int| 0 <= k < ws.len() && (#[trigger] ws[k]).spec_id() == id)
}

/// The identifiers of a batch of loaded thumbnails.
pub open spec fn loaded_ids(s: Seq<(u128, Thumbnail)>) -> Set<u128> {
    Set::new(|id: u128| exists|k: int| 0 <= k < s.len() && (#[trigger] s[k]).0 == id)
}

/// The map `m` after inserting a batch of keyed thumbnails in order; a
/// later entry for the same key wins.
pub open spec fn applied(m: Map<u128, Thumbnail>, s: Seq<(u128, Thumbnail)>) -> Map<
    u128,
    Thumbnail,
>
    decreases s.len(),
{
    if s.len() == 0 {
        m
    } else {
        applied(m, s.drop_last()).insert(s.last().0, s.last().1)
    }
}

/// The thumbnail cache, keyed by wallpaper identifier.
pub struct ThumbnailCache {
    map: HashMap<u128, Thumbnail>,
}

impl View for ThumbnailCache {
    type V = Map<u128, Thumbnail>;

    closed spec fn view(&self) -> Map<u128, Thumbnail> {
        self.map@
    }
}

impl ThumbnailCache {
    /// Every cached thumbnail is well formed.
    pub open spec fn wf(&self) -> bool {
        forall|id: u128| self@.contains_key(id) ==> (#[trigger] self@[id]).wf()
    }

    /// An empty cache.
    pub fn new() -> (r: ThumbnailCache)
        ensures
            r@ == Map::<u128, Thumbnail>::empty(),
            r.wf(),
    {
        ThumbnailCache { map: HashMap::new() }
    }

    /// How many thumbnails are cached.
    pub fn len(&self) -> (r: usize)
        ensures
            r == self@.len(),
    {
        self.map.len()
    }

    /// Whether a thumbnail is cached for `id`.
    pub fn contains(&self, id: u128) -> (r: bool)
        ensures
            r == self@.contains_key(id),
    {
        self.map.contains_key(&id)
    }

    /// The cached thumbnail for `id`, if any.
    pub fn get(&self, id: u128) -> (r: Option<&Thumbnail>)
        ensures
            (match r {
                Some(t) => self@.contains_key(id) && *t == self@[id],
                None => !self@.contains_key(id),
            }),
    {
        self.map.get(&id)
    }

    /// The plan of a reconciliation pass: the indices of the wallpapers
    /// whose identifier has no cached thumbnail yet, in list order.
    /// These are the files to load; every other wallpaper is already
    /// served by the cache.
    pub fn collect_unmet(&self, wallpapers: &Vec<Wallpaper>) -> (unmet: Vec<usize>)
        ensures
            forall|k: int|
                0 <= k < unmet@.len() ==> (#[trigger] unmet@[k]) < wallpapers@.len()
                    && !self@.contains_key(wallpapers@[unmet@[k] as int].spec_id()),
            forall|k1: int, k2: int| 0 <= k1 < k2 < unmet@.len() ==> unmet@[k1] < unmet@[k2],
            forall|j: int|
                0 <= j < wallpapers@.len() && !self@.contains_key(
                    (#[trigger] wallpapers@[j]).spec_id(),
                ) ==> unmet@.contains(j as usize),
    {
        let mut unmet: Vec<usize> = Vec::new();
        let n = wallpapers.len();
        let mut j: usize = 0;
        while j < n
            invariant
                j <= n,
                n == wallpapers@.len(),
                forall|k: int|
                    0 <= k < unmet@.len() ==> (#[trigger] unmet@[k]) < j && !self@.contains_key(
                        wallpapers@[unmet@[k] as int].spec_id(),
                    ),
                forall|k1: int, k2: int| 0 <= k1 < k2 < unmet@.len() ==> unmet@[k1] < unmet@[k2],
                forall|i: int|
                    0 <= i < j && !self@.contains_key((#[trigger] wallpapers@[i]).spec_id())
                        ==> unmet@.contains(i as usize),
            decreases n - j,
        {
            if !self.contains(wallpapers[j].id()) {
                let ghost prev = unmet@;
                unmet.push(j);
                proof {
                    assert(unmet@[prev.len() as int] == j);
                    assert forall|i: int|
                        0 <= i < j + 1 && !self@.contains_key(
                            (#[trigger] wallpapers@[i]).spec_id(),
                        ) implies unmet@.contains(i as usize) by {
                        if i < j {
                            let k = choose|k: int|
                                0 <= k < prev.len() && prev[k] == (i as usize);
                            assert(unmet@[k] == i as usize);
                        } else {
                            assert(unmet@[prev.len() as int] == i as usize);
                        }
                    }
                }
            }
            j += 1;
        }
        unmet
    }

    /// Inserts the freshly loaded thumbnails, in order; a later entry
    /// for the same identifier wins.
    fn insert_loaded(&mut self, loaded: Vec<(u128, Thumbnail)>)
        requires
            old(self).wf(),
            forall|k: int| 0 <= k < loaded@.len() ==> (#[trigger] loaded@[k]).1.wf(),
        ensures
            final(self).wf(),
            final(self)@ == applied(old(self)@, loaded@),
    {
        let ghost all = loaded@;
        let ghost pre = self@;
        let mut loaded = loaded;
        proof {
            vstd::std_specs::vec::axiom_spec_len(&loaded);
            assert(all.take(0) =~= Seq::<(u128, Thumbnail)>::empty());
        }
        let mut processed: usize = 0;
        while loaded.len() > 0
            invariant
                all.len() <= usize::MAX,
                processed <= all.len(),
                processed + loaded@.len() == all.len(),
                loaded@ == all.skip(processed as int),
                self@ == applied(pre, all.take(processed as int)),
                self.wf(),
                forall|k: int| 0 <= k < all.len() ==> (#[trigger] all[k]).1.wf(),
            decreases loaded@.len(),
        {
            let ghost pend_pre = loaded@;
            proof {
                assert(loaded@[0] == all[processed as int]);
            }
            let (id, t) = loaded.remove(0);
            self.map.insert(id, t);
            proof {
                assert(loaded@ =~= pend_pre.remove(0));
                assert(loaded@ =~= all.skip(processed as int + 1));
                assert(all.take(processed as int + 1).drop_last() =~= all.take(processed as int));
                assert(all.take(processed as int + 1).last() == all[processed as int]);
            }
            processed += 1;
        }
        proof {
            assert(all.take(processed as int) =~= all);
        }
    }

    /// Evicts every entry whose key is not an identifier of the live
    /// wallpaper list, keeping the others untouched.
    fn retain_live(&mut self, wallpapers: &Vec<Wallpaper>)
        requires
            old(self).wf(),
        ensures
            final(self).wf(),
            final(self)@ == old(self)@.restrict(wallpaper_ids(wallpapers@)),
    {
        let ghost mid = self@;
        let ghost ws = wallpapers@;
        let mut fresh: HashMap<u128, Thumbnail> = HashMap::new();
        let n = wallpapers.len();
        proof {
            assert(wallpaper_ids(ws.take(0)) =~= Set::<u128>::empty());
            assert(fresh@ =~= mid.restrict(wallpaper_ids(ws.take(0))));
            assert(self@ =~= mid.remove_keys(wallpaper_ids(ws.take(0))));
        }
        let mut j: usize = 0;
        while j < n
            invariant
                j <= n,
                n == ws.len(),
                wallpapers@ == ws,
                fresh@ == mid.restrict(wallpaper_ids(ws.take(j as int))),
                self@ == mid.remove_keys(wallpaper_ids(ws.take(j as int))),
                forall|id: u128|
                    fresh@.contains_key(id) ==> (#[trigger] fresh@[id]).wf(),
                forall|id: u128| mid.contains_key(id) ==> (#[trigger] mid[id]).wf(),
            decreases n - j,
        {
            let id = wallpapers[j].id();
            let ghost prev_ids = wallpaper_ids(ws.take(j as int));
            proof {
                assert(ws.take(j as int + 1)[j as int] == ws[j as int]);
                assert forall|x: u128| wallpaper_ids(ws.take(j as int + 1)).contains(x)
                    <==> prev_ids.insert(id).contains(x) by {
                    if prev_ids.insert(id).contains(x) {
                        if x == id {
                            assert(ws.take(j as int + 1)[j as int].spec_id() == x);
                        } else {
                            let k = choose|k: int|
                                0 <= k < ws.take(j as int).len() && (#[trigger] ws.take(
                                    j as int,
                                )[k]).spec_id() == x;
                            assert(ws.take(j as int + 1)[k].spec_id() == x);
                        }
                    }
                    if wallpaper_ids(ws.take(j as int + 1)).contains(x) {
                        let k = choose|k: int|
                            0 <= k < ws.take(j as int + 1).len() && (#[trigger] ws.take(
                                j as int + 1,
                            )[k]).spec_id() == x;
                        if k < j as int {
                            assert(ws.take(j as int)[k].spec_id() == x);
                        }
                    }
                }
                assert(wallpaper_ids(ws.take(j as int + 1)) =~= prev_ids.insert(id));
            }
            match self.map.remove(&id) {
                Some(t) => {
                    fresh.insert(id, t);
                },
                None => {
                },
            }
            proof {
                assert(fresh@ =~= mid.restrict(prev_ids.insert(id)));
                assert(self@ =~= mid.remove_keys(prev_ids.insert(id)));
            }
            j += 1;
        }
        self.map = fresh;
        proof {
            assert(ws.take(n as int) =~= ws);
        }
    }

    /// One reconciliation pass against a snapshot of the wallpaper
    /// list: insert the freshly loaded thumbnails, then evict every
    /// entry whose key is not a live wallpaper identifier. The cache
    /// afterwards is exactly the old cache plus the batch, restricted
    /// to the live identifiers.
    pub fn complete_pass(&mut self, wallpapers: &Vec<Wallpaper>, loaded: Vec<(u128, Thumbnail)>)
        requires
            old(self).wf(),
            forall|k: int| 0 <= k < loaded@.len() ==> (#[trigger] loaded@[k]).1.wf(),
        ensures
            final(self).wf(),
            final(self)@ == applied(old(self)@, loaded@).restrict(wallpaper_ids(wallpapers@)),
    {
        self.insert_loaded(loaded);
        self.retain_live(wallpapers);
    }
}

/// The keys of an applied batch: the old keys plus the batch keys.
proof fn lemma_applied_dom(m: Map<u128, Thumbnail>, s: Seq<(u128, Thumbnail)>)
    ensures
        applied(m, s).dom() =~= m.dom() + loaded_ids(s),
    decreases s.len(),
{
    if s.len() > 0 {
        lemma_applied_dom(m, s.drop_last());
        assert forall|id: u128| loaded_ids(s).contains(id) implies applied(m, s).dom().contains(
            id,
        ) by {
            let k = choose|k: int| 0 <= k < s.len() && (#[trigger] s[k]).0 == id;
            if k < s.len() - 1 {
                assert(s.drop_last()[k].0 == id);
                assert(loaded_ids(s.drop_last()).contains(id));
            }
        }
        assert forall|id: u128|
            loaded_ids(s.drop_last()).contains(id) implies loaded_ids(s).contains(id) by {
            let k = choose|k: int|
                0 <= k < s.drop_last().len() && (#[trigger] s.drop_last()[k]).0 == id;
            assert(s[k].0 == id);
        }
        assert(loaded_ids(s).contains(s.last().0));
    } else {
        assert(loaded_ids(s) =~= Set::<u128>::empty());
    }
}

/// Law: after a reconciliation pass whose batch covers every live
/// identifier that was not already cached, the cache's key set equals
/// exactly the live wallpaper identifier set: no stale keys, no missing
/// ones.
pub proof fn lemma_reconciliation_exact(
    pre: Map<u128, Thumbnail>,
    ws: Seq<Wallpaper>,
    loaded: Seq<(u128, Thumbnail)>,
)
    requires
        forall|id: u128|
            wallpaper_ids(ws).contains(id) && !pre.dom().contains(id) ==> loaded_ids(
                loaded,
            ).contains(id),
    ensures
        applied(pre, loaded).restrict(wallpaper_ids(ws)).dom() =~= wallpaper_ids(ws),
{
    lemma_applied_dom(pre, loaded);
}

} // verus!
