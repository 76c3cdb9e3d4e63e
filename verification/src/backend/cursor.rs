use vstd::prelude::*;

use crate::cli::texts;
use crate::text::str_equal;

verus! {

/// One image of an Xcursor file: its nominal size, its extent, its hotspot, how long it
/// shows (in milliseconds), and its pixels as RGBA bytes.
#[derive(Debug)]
pub struct CursorImage {
    pub size: u32,
    pub width: u32,
    pub height: u32,
    pub xhot: u32,
    pub yhot: u32,
    pub delay: u32,
    pub pixels_rgba: Vec<u8>,
}

/// A cursor image as values.
pub struct CursorImageView {
    pub size: u32,
    pub width: u32,
    pub height: u32,
    pub xhot: u32,
    pub yhot: u32,
    pub delay: u32,
    pub pixels_rgba: Seq<u8>,
}

impl View for CursorImage {
    type V = CursorImageView;

    open spec fn view(&self) -> CursorImageView {
        CursorImageView {
            size: self.size,
            width: self.width,
            height: self.height,
            xhot: self.xhot,
            yhot: self.yhot,
            delay: self.delay,
            pixels_rgba: self.pixels_rgba@,
        }
    }
}

/// The views of `images`, in order.
pub open spec fn image_views(images: Seq<CursorImage>) -> Seq<CursorImageView> {
    images.map_values(|i: CursorImage| i@)
}

/// What `xcursor::parser::parse_xcursor` finds in the bytes of a cursor file: its images in
/// file order, or none for a malformed file.
pub uninterp spec fn xcursor_images(data: Seq<u8>) -> Option<Seq<CursorImageView>>;

/// `xcursor::parser::parse_xcursor`: the images of a cursor file (the result is named
/// `xcursor_images`); each image keeps its RGBA pixels.
#[verifier::external_body]
fn parse_cursor_file(data: &[u8]) -> (r: Option<Vec<CursorImage>>)
    ensures
        match r {
            Some(v) => xcursor_images(data@) == Some(image_views(v@)),
            None => xcursor_images(data@) is None,
        },
{
    xcursor::parser::parse_xcursor(data).map(|images| {
        images
            .into_iter()
            .map(|i| CursorImage {
                size: i.size,
                width: i.width,
                height: i.height,
                xhot: i.xhot,
                yhot: i.yhot,
                delay: i.delay,
                pixels_rgba: i.pixels_rgba,
            })
            .collect()
    })
}

/// How far a nominal size is from the size asked for.
pub open spec fn size_distance(a: u32, b: u32) -> int {
    if a >= b {
        a - b
    } else {
        b - a
    }
}

/// Whether `i` is the first of the images whose nominal size is nearest `target`.
pub open spec fn is_nearest(images: Seq<CursorImageView>, target: u32, i: int) -> bool {
    &&& 0 <= i < images.len()
    &&& forall|k: int| 0 <= k < images.len() ==> size_distance(images[k].size, target) >= size_distance(images[i].size, target)
    &&& forall|k: int| 0 <= k < i ==> size_distance(images[k].size, target) > size_distance(images[i].size, target)
}

/// The first of the images whose nominal size is nearest `target`; none when there is no
/// image.
pub open spec fn nearest_image(images: Seq<CursorImageView>, target: u32) -> Option<int> {
    if exists|i: int| is_nearest(images, target, i) {
        Some(choose|i: int| is_nearest(images, target, i))
    } else {
        None
    }
}

proof fn lemma_nearest_unique(images: Seq<CursorImageView>, target: u32, i: int, j: int)
    requires
        is_nearest(images, target, i),
        is_nearest(images, target, j),
    ensures
        i == j,
{
    if i < j {
        assert(size_distance(images[i].size, target) > size_distance(images[j].size, target));
    } else if j < i {
        assert(size_distance(images[j].size, target) > size_distance(images[i].size, target));
    }
}

fn distance(a: u32, b: u32) -> (d: u32)
    ensures
        d == size_distance(a, b),
{
    if a >= b {
        a - b
    } else {
        b - a
    }
}

fn nearest_index(images: &Vec<CursorImage>, target: u32) -> (r: Option<usize>)
    ensures
        match r {
            Some(i) => nearest_image(image_views(images@), target) == Some(i as int),
            None => nearest_image(image_views(images@), target) is None,
        },
{
    let ghost views = image_views(images@);
    if images.len() == 0 {
        proof {
            if exists|i: int| is_nearest(views, target, i) {
                let i = choose|i: int| is_nearest(views, target, i);
                assert(views.len() == 0);
            }
        }
        return None;
    }
    let mut best: usize = 0;
    let mut best_d: u32 = distance(images[0].size, target);
    let mut k: usize = 1;
    while k < images.len()
        invariant
            views == image_views(images@),
            views.len() == images@.len(),
            0 <= best < k <= images@.len(),
            best_d == size_distance(views[best as int].size, target),
            forall|j: int| 0 <= j < k ==> size_distance(views[j].size, target) >= best_d,
            forall|j: int| 0 <= j < best ==> size_distance(views[j].size, target) > best_d,
        decreases images@.len() - k,
    {
        let d = distance(images[k].size, target);
        assert(views[k as int].size == images@[k as int].size);
        if d < best_d {
            best = k;
            best_d = d;
        }
        k = k + 1;
    }
    proof {
        assert(views[best as int].size == images@[best as int].size);
        assert(is_nearest(views, target, best as int));
        let c = choose|i: int| is_nearest(views, target, i);
        lemma_nearest_unique(views, target, c, best as int);
    }
    Some(best)
}

/// The image whose nominal size is nearest `size` (the first such), if there is any image.
pub fn pick_nearest_image(images: Vec<CursorImage>, size: u32) -> (r: Option<CursorImage>)
    ensures
        match r {
            Some(img) => nearest_image(image_views(images@), size) matches Some(i)
                && image_views(images@)[i] == img@,
            None => nearest_image(image_views(images@), size) is None,
        },
{
    let mut images = images;
    let ghost views = image_views(images@);
    match nearest_index(&images, size) {
        Some(i) => {
            let img = images.swap_remove(i);
            assert(views[i as int] == img@);
            Some(img)
        },
        None => None,
    }
}

/// The image of a cursor file whose nominal size is nearest `size` (the first such), if the
/// file holds any image.
pub fn load_cursor_image(data: &[u8], size: u32) -> (r: Option<CursorImage>)
    ensures
        match r {
            Some(img) => xcursor_images(data@) matches Some(images) && nearest_image(images, size) matches Some(i)
                && images[i] == img@,
            None => xcursor_images(data@) matches Some(images) ==> nearest_image(images, size) is None,
        },
{
    match parse_cursor_file(data) {
        Some(images) => pick_nearest_image(images, size),
        None => None,
    }
}

/// The theme icon names tried, in order, for a cursor name.
pub open spec fn icon_candidates(name: Seq<char>) -> Seq<Seq<char>> {
    if name == "default"@ {
        seq!["default"@, "left_ptr"@, "arrow"@]
    } else if name == "pointer"@ {
        seq!["pointer"@, "hand"@, "hand2"@, "pointing_hand"@]
    } else if name == "text"@ {
        seq!["text"@, "xterm"@, "ibeam"@]
    } else if name == "crosshair"@ {
        seq!["crosshair"@, "cross"@]
    } else if name == "grab"@ {
        seq!["grab"@, "openhand"@, "hand1"@]
    } else if name == "grabbing"@ {
        seq!["grabbing"@, "closedhand"@]
    } else {
        seq![name]
    }
}

fn names(list: &[&str]) -> (r: Vec<String>)
    ensures
        r@.len() == list@.len(),
        forall|i: int| 0 <= i < list@.len() ==> #[trigger] r@[i]@ == list@[i]@,
{
    let mut r: Vec<String> = Vec::new();
    let mut i: usize = 0;
    while i < list.len()
        invariant
            i <= list@.len(),
            r@.len() == i,
            forall|j: int| 0 <= j < i ==> #[trigger] r@[j]@ == list@[j]@,
        decreases list@.len() - i,
    {
        r.push(String::from_str(list[i]));
        i = i + 1;
    }
    r
}

/// The theme icon names tried, in order, for a cursor name (see `icon_candidates`).
pub fn cursor_icon_candidates(name: &str) -> (r: Vec<String>)
    ensures
        texts(r@) == icon_candidates(name@),
{
    let r = if str_equal(name, "default") {
        names(&["default", "left_ptr", "arrow"])
    } else if str_equal(name, "pointer") {
        names(&["pointer", "hand", "hand2", "pointing_hand"])
    } else if str_equal(name, "text") {
        names(&["text", "xterm", "ibeam"])
    } else if str_equal(name, "crosshair") {
        names(&["crosshair", "cross"])
    } else if str_equal(name, "grab") {
        names(&["grab", "openhand", "hand1"])
    } else if str_equal(name, "grabbing") {
        names(&["grabbing", "closedhand"])
    } else {
        names(&[name])
    };
    assert(texts(r@) =~= icon_candidates(name@));
    r
}

} // verus!
