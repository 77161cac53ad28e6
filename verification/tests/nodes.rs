use glam::{DAffine2, DVec2};
use raster_nodes::bbox::{AxisAlignedBbox, Bbox};
use raster_nodes::blend::{
    blend_by_plan, blend_image, blend_image_closure, blend_new_image, plan_blend, BlendImageNode,
    BlendImageTupleNode, BlendPlan, BlendReverseImageNode,
};
use raster_nodes::channel::{insert_channel_node, sizes_clash, InsertChannelNode};
use raster_nodes::downres::{downres, reduce, DownresNode};
use raster_nodes::empty::{empty_image, measure, EmptyImageNode};
use raster_nodes::extend::{
    extend_by_plan, extend_image_node, extend_image_to_bounds_node, plan_bounds, BoundsPlan,
    ExtendImageNode, ExtendImageToBoundsNode,
};
use raster_nodes::frame::{image_frame, ImageFrame, ImageFrameNode, Placed, Sample, Transform};
use raster_nodes::image::Image;
use raster_nodes::map::{map_image, MapImageNode};
use raster_nodes::mask::{mask_imge, MaskImageNode};
use raster_nodes::merge::{merge_bounding_box_node, MergeBoundingBoxNode};
use raster_nodes::pixel::{Alpha, Luma, RedGreenBlue, Rgba};

#[derive(Debug, Clone, Copy, PartialEq)]
struct Ink {
    value: u8,
    alpha: u8,
}

impl Alpha for Ink {
    type AlphaChannel = u8;
    const TRANSPARENT: Ink = Ink { value: 0, alpha: 0 };

    fn multiplied_alpha(&self, alpha: u8) -> Ink {
        Ink { value: self.value, alpha: (self.alpha as u32 * alpha as u32 / 255) as u8 }
    }
}

fn ink(value: u8) -> Ink {
    Ink { value, alpha: 255 }
}

fn scale(x: f64, y: f64) -> DAffine2 {
    DAffine2::from_scale(DVec2::new(x, y))
}

fn place(left: f64, top: f64, width: f64, height: f64) -> DAffine2 {
    DAffine2::from_translation(DVec2::new(left, top)) * scale(width, height)
}

fn inks(width: u32, height: u32, values: &[u8]) -> Image<Ink> {
    assert_eq!(values.len(), (width * height) as usize);
    Image { width, height, data: values.iter().map(|v| ink(*v)).collect() }
}

fn values(image: &Image<Ink>) -> Vec<u8> {
    image.data.iter().map(|p| p.value).collect()
}

fn over(source: Ink, _under: Ink) -> Ink {
    source
}

fn sum(source: Ink, under: Ink) -> Ink {
    Ink { value: source.value + under.value, alpha: under.alpha }
}

#[test]
fn load_image() {
    let picture = Image {
        width: 2,
        height: 1,
        data: vec![
            Rgba { red: 30u8, green: 60, blue: 90, alpha: 255 },
            Rgba { red: 0, green: 0, blue: 3, alpha: 7 },
        ],
    };
    let gray = |p: Rgba<u8>| {
        let l = ((p.red as u32 + p.green as u32 + p.blue as u32) / 3) as u8;
        Rgba { red: l, green: l, blue: l, alpha: p.alpha }
    };
    let frame = ImageFrameNode::new(scale(2., 1.)).eval(picture);
    let export = MapImageNode::new(gray).eval(frame);
    assert_eq!(export.transform, scale(2., 1.));
    assert_eq!(
        export.image.data,
        vec![
            Rgba { red: 60u8, green: 60, blue: 60, alpha: 255 },
            Rgba { red: 1, green: 1, blue: 1, alpha: 7 },
        ]
    );
}

// Images and frames

#[test]
fn pixels_stand_row_by_row() {
    let mut image = inks(3, 2, &[1, 2, 3, 4, 5, 6]);
    assert_eq!(image.get_pixel(2, 0), Some(ink(3)));
    assert_eq!(image.get_pixel(0, 1), Some(ink(4)));
    assert_eq!(image.get_pixel(3, 0), None);
    assert_eq!(image.get_pixel(0, 2), None);
    *image.get_pixel_mut(1, 1).unwrap() = ink(50);
    assert_eq!(values(&image), vec![1, 2, 3, 4, 50, 6]);
    assert!(image.get_pixel_mut(1, 2).is_none());
}

#[test]
fn missing_pixels_are_not_found() {
    let image = Image { width: 2, height: 2, data: vec![ink(1), ink(2), ink(3)] };
    assert_eq!(image.get_pixel(0, 1), Some(ink(3)));
    assert_eq!(image.get_pixel(1, 1), None);
    assert!(!image.is_filled());
    assert!(inks(2, 1, &[1, 2]).is_filled());
}

#[test]
fn new_image_has_one_color() {
    let image = Image::new(3, 2, ink(9));
    assert_eq!((image.width, image.height), (3, 2));
    assert_eq!(values(&image), vec![9; 6]);
    assert_eq!(image.clone(), image);
    let none: Image<Ink> = Image::default();
    assert_eq!((none.width, none.height, none.data.len()), (0, 0, 0));
}

#[test]
fn region_update_passes_over_missing_places() {
    let mut image = inks(2, 2, &[1, 2, 3, 4]);
    image.update_region((1, 0), (9, 9), &|x: u32, y: u32, p: Ink| {
        ink(p.value + 10 * x as u8 + 100 * y as u8)
    });
    assert_eq!(values(&image), vec![1, 12, 3, 114]);
    image.update_region((1, 1), (1, 2), &|_x: u32, _y: u32, _p: Ink| ink(0));
    assert_eq!(values(&image), vec![1, 12, 3, 114]);
}

#[test]
fn frame_is_sampled_at_the_pixel_under_a_point() {
    let frame = image_frame(inks(2, 2, &[1, 2, 3, 4]), place(10., 20., 4., 2.));
    let at = |x: f64, y: f64| frame.sample(DVec2::new(x, y), DVec2::ONE).map(|p| p.value);
    assert_eq!(at(10., 20.), Some(1));
    assert_eq!(at(11.9, 20.9), Some(1));
    assert_eq!(at(12., 20.), Some(2));
    assert_eq!(at(10., 21.), Some(3));
    assert_eq!(at(13.9, 21.9), Some(4));
    assert_eq!(at(14., 20.), None);
    assert_eq!(at(10., 22.), None);
    assert_eq!(at(9.9, 20.), None);
    assert_eq!(at(10., 19.9), None);
    assert_eq!(at(12., 30.), None);
}

#[test]
fn frame_without_pixels_gives_none() {
    let frame: ImageFrame<Ink> = ImageFrame::empty();
    assert_eq!(frame.transform, DAffine2::ZERO);
    assert_eq!(frame.sample(DVec2::ZERO, DVec2::ONE), None);
    let flat = image_frame(inks(0, 3, &[]), scale(5., 5.));
    assert_eq!(flat.sample(DVec2::ZERO, DVec2::ONE), None);
}

#[test]
fn sides_are_measured_by_their_length() {
    let skewed = DAffine2::from_cols(DVec2::new(3., 4.), DVec2::new(0., -2.5), DVec2::new(7., 7.));
    assert_eq!(skewed.decompose_scale(), DVec2::new(5., 2.5));
    assert_eq!(measure(skewed), (5, 2));
}

// Boxes

#[test]
fn box_goes_around_the_corners() {
    let turned = DAffine2::from_cols(DVec2::new(0., 2.), DVec2::new(-3., 0.), DVec2::new(1., 1.));
    let bbox = Bbox::unit().affine_transform(turned).to_axis_aligned_bbox();
    assert_eq!(bbox.start, DVec2::new(-2., 1.));
    assert_eq!(bbox.end, DVec2::new(1., 3.));
    assert_eq!(bbox.size(), DVec2::new(3., 2.));
}

#[test]
fn box_contains_its_border() {
    let bbox = AxisAlignedBbox { start: DVec2::new(0., 1.), end: DVec2::new(2., 3.) };
    assert!(bbox.contains(DVec2::new(0., 1.)));
    assert!(bbox.contains(DVec2::new(2., 3.)));
    assert!(bbox.contains(DVec2::new(1., 2.)));
    assert!(!bbox.contains(DVec2::new(-0.1, 2.)));
    assert!(!bbox.contains(DVec2::new(1., 0.9)));
    assert!(!bbox.contains(DVec2::new(2.1, 2.)));
    assert!(!bbox.contains(DVec2::new(1., 3.1)));
}

#[test]
fn empty_boxes_add_nothing() {
    let a = AxisAlignedBbox { start: DVec2::new(0., 1.), end: DVec2::new(2., 3.) };
    let b = AxisAlignedBbox { start: DVec2::new(1., 0.), end: DVec2::new(5., 2.) };
    let e = AxisAlignedBbox { start: DVec2::new(9., 9.), end: DVec2::new(9., 9.) };
    let both = AxisAlignedBbox { start: DVec2::new(0., 0.), end: DVec2::new(5., 3.) };
    assert_eq!(a.union_non_empty(&b), Some(both));
    assert_eq!(a.union_non_empty(&e), Some(a));
    assert_eq!(e.union_non_empty(&b), Some(b));
    assert_eq!(e.union_non_empty(&e), None);
}

#[test]
fn merging_starts_with_the_first_box() {
    let node = MergeBoundingBoxNode::new();
    let first = node.eval((None, place(1., 1., 2., 2.)));
    let one = AxisAlignedBbox { start: DVec2::new(1., 1.), end: DVec2::new(3., 3.) };
    assert_eq!(first, Some(one));
    let second = merge_bounding_box_node((first, place(0., 2., 1., 4.)));
    let two = AxisAlignedBbox { start: DVec2::new(0., 1.), end: DVec2::new(3., 6.) };
    assert_eq!(second, Some(two));
    let point = AxisAlignedBbox { start: DVec2::ZERO, end: DVec2::ZERO };
    assert_eq!(merge_bounding_box_node((None, DAffine2::ZERO)), Some(point));
    assert_eq!(merge_bounding_box_node((Some(point), DAffine2::ZERO)), None);
    assert_eq!(merge_bounding_box_node((Some(point), place(1., 1., 2., 2.))), Some(one));
}

#[test]
fn merging_again_changes_nothing() {
    let initial = merge_bounding_box_node((None, place(1., 1., 2., 2.)));
    assert_eq!(merge_bounding_box_node((initial, place(1., 1., 2., 2.))), initial);
    let both = merge_bounding_box_node((initial, place(0., 2., 1., 4.)));
    assert_eq!(merge_bounding_box_node((both, place(0., 2., 1., 4.))), both);
}

#[test]
fn merging_order_does_not_matter_without_nan() {
    let merge = |a: DAffine2, b: DAffine2| {
        let first = merge_bounding_box_node((None, place(1., 1., 2., 2.)));
        merge_bounding_box_node((merge_bounding_box_node((first, a)), b))
    };
    let (a, b) = (place(0., 2., 1., 4.), place(-3., 1., 5., 1.));
    assert_eq!(merge(a, b), merge(b, a));
    let around = AxisAlignedBbox { start: DVec2::new(-3., 1.), end: DVec2::new(3., 6.) };
    assert_eq!(merge(a, b), Some(around));
    // A thing that takes up no room adds nothing, first or last.
    assert_eq!(merge(DAffine2::ZERO, b), merge(b, DAffine2::ZERO));
    // Zeros of both signs are equal coordinates.
    let negative = DAffine2::from_cols(
        DVec2::new(-1., 0.),
        DVec2::new(-0., 1.),
        DVec2::new(-0., 0.),
    );
    let pair = |a: DAffine2, b: DAffine2| {
        merge_bounding_box_node((merge_bounding_box_node((None, a)), b))
    };
    let (one, other) = (pair(negative, place(-2., 0., 2., 1.)), pair(place(-2., 0., 2., 1.), negative));
    assert_eq!(one, other);
    let sign = |bbox: Option<AxisAlignedBbox>| bbox.map(|bbox| bbox.end.x.is_sign_negative());
    assert_eq!((sign(one), sign(other)), (Some(false), Some(true)));
    let nowhere = place(f64::NAN, 0., 1., 1.);
    assert_eq!(merge(nowhere, b).map(|bbox| bbox.start.x), Some(-3.));
    assert!(merge(b, nowhere).is_some_and(|bbox| bbox.start.x.is_nan()));
}

// Reduction

#[test]
fn whole_factors_take_every_nth_pixel() {
    let image = inks(4, 2, &[1, 2, 3, 4, 5, 6, 7, 8]);
    let result = downres(image_frame(image, place(3., 3., 2., 1.)));
    assert_eq!((result.image.width, result.image.height), (2, 1));
    assert_eq!(values(&result.image), vec![1, 3]);
    assert_eq!(result.transform, place(3., 3., 2., 1.));
}

#[test]
fn reduction_never_enlarges() {
    let image = inks(2, 2, &[1, 2, 3, 4]);
    let result = DownresNode::new().eval(image_frame(image.clone(), scale(100., 100.)));
    assert_eq!(result.image, image);
}

#[test]
fn uneven_reduction_cuts_coordinates() {
    let image = inks(5, 1, &[0, 1, 2, 3, 4]);
    assert_eq!(values(&reduce(&image, 3, 1)), vec![0, 1, 3]);
    assert_eq!(values(&reduce(&image, 2, 1)), vec![0, 2]);
    assert_eq!(values(&reduce(&image, 0, 1)), Vec::<u8>::new());
}

#[test]
fn flat_frame_is_reduced_to_nothing() {
    let result = downres(image_frame(inks(2, 2, &[1, 2, 3, 4]), scale(0.9, 2.)));
    assert_eq!((result.image.width, result.image.height), (0, 2));
    assert_eq!(result.image.data.len(), 0);
}

// Maps and channels

#[test]
fn map_applies_to_each_pixel() {
    let image = inks(2, 2, &[1, 2, 3, 4]);
    let twice = map_image(image.clone(), &|p: Ink| ink(2 * p.value));
    assert_eq!(values(&twice), vec![2, 4, 6, 8]);
    assert_eq!(map_image(image.clone(), &|p: Ink| p), image);
    let then = map_image(twice, &|p: Ink| ink(p.value + 1));
    assert_eq!(then, map_image(image, &|p: Ink| ink(2 * p.value + 1)));
}

fn gray(width: u32, height: u32, values: &[u8]) -> Image<Luma<u8>> {
    Image { width, height, data: values.iter().map(|l| Luma { l: *l }).collect() }
}

#[test]
fn channel_takes_the_gray_values() {
    let pixel = Rgba { red: 1u8, green: 2, blue: 3, alpha: 4 };
    let image = Image::new(2, 1, pixel);
    let insertion = gray(2, 1, &[10, 20]);
    let red = insert_channel_node(image.clone(), &insertion, RedGreenBlue::Red);
    assert_eq!(red.data, vec![Rgba { red: 10, ..pixel }, Rgba { red: 20, ..pixel }]);
    let green = insert_channel_node(image.clone(), &insertion, RedGreenBlue::Green);
    assert_eq!(green.data, vec![Rgba { green: 10, ..pixel }, Rgba { green: 20, ..pixel }]);
    let blue = insert_channel_node(image, &insertion, RedGreenBlue::Blue);
    assert_eq!(blue.data, vec![Rgba { blue: 10, ..pixel }, Rgba { blue: 20, ..pixel }]);
    assert_eq!(insert_channel_node(blue.clone(), &insertion, RedGreenBlue::Blue), blue);
}

#[test]
fn insertion_of_another_size_is_ignored() {
    let pixel = Rgba { red: 1u8, green: 2, blue: 3, alpha: 4 };
    let image = Image::new(2, 1, pixel);
    for insertion in [gray(1, 2, &[8, 9]), gray(2, 2, &[6, 7, 8, 9]), gray(0, 1, &[])] {
        assert_eq!(insert_channel_node(image.clone(), &insertion, RedGreenBlue::Red), image);
    }
    let node = InsertChannelNode::new(gray(2, 1, &[5, 6]), RedGreenBlue::Red);
    let frame = node.eval(image_frame(image, scale(3., 3.)));
    assert_eq!(frame.transform, scale(3., 3.));
    assert_eq!(frame.image.data, vec![Rgba { red: 5, ..pixel }, Rgba { red: 6, ..pixel }]);
}

#[test]
fn sizes_clash_unless_equal_or_without_columns() {
    let image = Image::new(2, 1, Rgba { red: 1u8, green: 2, blue: 3, alpha: 4 });
    assert!(!sizes_clash(&image, &gray(2, 1, &[5, 6])));
    assert!(sizes_clash(&image, &gray(1, 1, &[5])));
    assert!(sizes_clash(&image, &gray(2, 2, &[5, 6, 7, 8])));
    assert!(!sizes_clash(&image, &gray(0, 1, &[])));
    assert!(sizes_clash(&image, &gray(2, 0, &[])));
}

#[test]
fn insertions_into_two_channels_commute() {
    let image = Image::new(2, 1, Rgba { red: 1u8, green: 2, blue: 3, alpha: 4 });
    let (a, b) = (gray(2, 1, &[10, 20]), gray(2, 1, &[30, 40]));
    let red_first = insert_channel_node(image.clone(), &a, RedGreenBlue::Red);
    let red_first = insert_channel_node(red_first, &b, RedGreenBlue::Blue);
    let blue_first = insert_channel_node(image, &b, RedGreenBlue::Blue);
    let blue_first = insert_channel_node(blue_first, &a, RedGreenBlue::Red);
    assert_eq!(red_first, blue_first);
    assert_eq!(red_first.data[1], Rgba { red: 20, green: 2, blue: 40, alpha: 4 });
}

#[test]
fn later_insertion_replaces_earlier() {
    let image = Image::new(2, 1, Rgba { red: 1u8, green: 2, blue: 3, alpha: 4 });
    let (a, b) = (gray(2, 1, &[10, 20]), gray(2, 1, &[30, 40]));
    let once = insert_channel_node(image.clone(), &b, RedGreenBlue::Green);
    let twice = insert_channel_node(image, &a, RedGreenBlue::Green);
    let twice = insert_channel_node(twice, &b, RedGreenBlue::Green);
    assert_eq!(twice, once);
}

// Masks

fn alphas(image: &Image<Ink>) -> Vec<u8> {
    image.data.iter().map(|p| p.alpha).collect()
}

#[test]
fn mask_multiplies_opacity() {
    let image = image_frame(inks(2, 2, &[1, 2, 3, 4]), scale(2., 2.));
    let stencil = image_frame(gray(2, 2, &[255, 0, 51, 102]), scale(2., 2.));
    let result = mask_imge(image, stencil);
    assert_eq!(values(&result.image), vec![1, 2, 3, 4]);
    assert_eq!(alphas(&result.image), vec![255, 0, 51, 102]);
    assert_eq!(result.transform, scale(2., 2.));
}

#[test]
fn stencil_without_extent_masks_nothing() {
    let image = image_frame(inks(2, 1, &[1, 2]), scale(2., 1.));
    let stencil = image_frame(gray(1, 1, &[0]), DAffine2::ZERO);
    let result = MaskImageNode::new(stencil).eval(image);
    assert_eq!(alphas(&result.image), vec![255, 255]);
}

#[test]
fn pixels_beside_the_stencil_use_its_border() {
    // The stencil begins at (1, 0): the first column is masked by the stencil's first column.
    let image = image_frame(inks(3, 1, &[1, 2, 3]), scale(3., 1.));
    let stencil = image_frame(gray(2, 1, &[51, 102]), place(1., 0., 2., 1.));
    let result = mask_imge(image, stencil);
    assert_eq!(alphas(&result.image), vec![51, 51, 102]);
    // Right of the stencil the closest point is its right edge, which has no pixel.
    let image = image_frame(inks(3, 1, &[1, 2, 3]), scale(3., 1.));
    let stencil = image_frame(gray(1, 1, &[51]), scale(1., 1.));
    let result = mask_imge(image, stencil);
    assert_eq!(alphas(&result.image), vec![51, 255, 255]);
}

// Blending

#[test]
fn blend_changes_the_footprint_alone() {
    let background = image_frame(inks(3, 3, &[1, 2, 3, 4, 5, 6, 7, 8, 9]), scale(3., 3.));
    let foreground = image_frame(inks(1, 1, &[100]), place(1., 1., 1., 2.));
    let result = blend_image_closure(foreground, background, sum);
    assert_eq!(values(&result.image), vec![1, 2, 3, 4, 105, 6, 7, 108, 9]);
    assert_eq!(result.transform, scale(3., 3.));
}

#[test]
fn pixels_may_have_any_size() {
    // Each pixel of the background is two units wide and half a unit high.
    let background = image_frame(inks(2, 2, &[1, 2, 3, 4]), place(10., 0., 4., 1.));
    let foreground = image_frame(inks(2, 1, &[100, 200]), place(11., 0., 4., 1.));
    let result = blend_image(foreground, background, &over);
    // The first column begins left of the foreground; the second begins in its first pixel.
    assert_eq!(values(&result.image), vec![1, 100, 3, 100]);
}

#[test]
fn foreground_beyond_the_background_is_cut() {
    let background = image_frame(inks(2, 2, &[1, 2, 3, 4]), scale(2., 2.));
    let foreground = image_frame(inks(2, 2, &[10, 20, 30, 40]), place(-1., -1., 2., 2.));
    let result = blend_image(foreground, background, &over);
    assert_eq!(values(&result.image), vec![40, 2, 3, 4]);
}

#[test]
fn empty_foreground_changes_nothing() {
    let background = image_frame(inks(2, 2, &[1, 2, 3, 4]), scale(2., 2.));
    let foreground = image_frame(inks(0, 0, &[]), scale(2., 2.));
    let result = BlendImageTupleNode::new(over).eval((background, foreground));
    assert_eq!(values(&result.image), vec![1, 2, 3, 4]);
}

#[test]
fn blend_gets_foreground_first() {
    let background = image_frame(inks(1, 1, &[9]), scale(1., 1.));
    let foreground = image_frame(inks(1, 1, &[4]), scale(1., 1.));
    let less = |source: Ink, under: Ink| ink(under.value - source.value);
    let result = BlendImageTupleNode::new(less).eval((background, foreground));
    assert_eq!(values(&result.image), vec![5]);
}

struct Bright;

impl Sample for Bright {
    type Pixel = Ink;

    fn sample(&self, pos: DVec2, area: DVec2) -> Option<Ink> {
        assert_eq!(area, DVec2::ONE);
        if pos.y < 1. {
            Some(ink(77))
        } else {
            None
        }
    }
}

#[test]
fn any_sample_source_can_be_blended() {
    let background = image_frame(inks(2, 2, &[1, 2, 3, 4]), scale(2., 2.));
    let bright = Placed { source: Bright, transform: place(0., 0., 1., 2.) };
    let result = blend_image_closure(bright, background, over);
    assert_eq!(values(&result.image), vec![77, 2, 3, 4]);
}

#[test]
fn background_grows_to_a_new_canvas() {
    let background = image_frame(inks(2, 2, &[1, 2, 3, 4]), place(1., 0., 2., 2.));
    let foreground = image_frame(inks(1, 1, &[9]), place(3., 0., 1., 1.));
    assert_eq!(
        plan_blend(foreground.transform, background.transform),
        BlendPlan::Canvas { start: (1, 0), end: (4, 2) }
    );
    let result = blend_new_image(foreground, background, &over);
    assert_eq!((result.image.width, result.image.height), (3, 2));
    assert_eq!(result.transform, place(1., 0., 3., 2.));
    assert_eq!(values(&result.image), vec![1, 2, 9, 3, 4, 0]);
    assert_eq!(result.image.get_pixel(2, 1), Some(Ink::TRANSPARENT));
}

#[test]
fn enclosed_foreground_keeps_the_background_size() {
    let background = image_frame(inks(2, 2, &[1, 2, 3, 4]), scale(2., 2.));
    let foreground = image_frame(inks(1, 1, &[9]), place(1., 0., 1., 1.));
    assert_eq!(plan_blend(foreground.transform, background.transform), BlendPlan::Within);
    let result = BlendImageNode::new(background, over).eval(foreground);
    assert_eq!(values(&result.image), vec![1, 9, 3, 4]);
}

#[test]
fn nothing_over_nothing_is_empty() {
    let nothing = || image_frame(inks(1, 1, &[1]), DAffine2::ZERO);
    assert_eq!(plan_blend(DAffine2::ZERO, DAffine2::ZERO), BlendPlan::Nothing);
    let result = BlendImageNode::new(nothing(), over).checked_eval(nothing()).unwrap();
    assert_eq!((result.image.width, result.image.height), (0, 0));
    assert_eq!(result.transform, DAffine2::ZERO);
}

#[test]
fn reverse_node_swaps_the_roles() {
    let lower = || image_frame(inks(2, 1, &[1, 2]), scale(2., 1.));
    let upper = || image_frame(inks(1, 1, &[9]), scale(1., 1.));
    let forward = BlendImageNode::new(lower(), over).eval(upper());
    let reverse = BlendReverseImageNode::new(upper(), over).eval(lower());
    assert_eq!(values(&forward.image), vec![9, 2]);
    assert_eq!(forward, reverse);
    let checked = BlendReverseImageNode::new(upper(), over).checked_eval(lower());
    assert_eq!(checked, Some(forward));
}

#[test]
fn canvas_must_not_end_before_it_starts() {
    assert!(BlendPlan::Nothing.is_feasible());
    assert!(BlendPlan::Within.is_feasible());
    assert!(BlendPlan::Canvas { start: (1, 1), end: (1, 3) }.is_feasible());
    assert!(!BlendPlan::Canvas { start: (2, 1), end: (1, 3) }.is_feasible());
    assert!(!BlendPlan::Canvas { start: (1, 4), end: (1, 3) }.is_feasible());
}

#[test]
fn planned_canvas_does_not_end_before_it_starts() {
    for (foreground, background) in [
        (place(2., 3., -5., -6.), place(4., 1., 1., 1.)),
        (place(f64::NAN, 0., 1., 1.), scale(3., 3.)),
        (scale(3., 3.), place(0., f64::NAN, 1., 1.)),
        (scale(f64::INFINITY, 1.), scale(1., 1.)),
    ] {
        match plan_blend(foreground, background) {
            BlendPlan::Canvas { start, end } => {
                assert!(start.0 <= end.0 && start.1 <= end.1);
            }
            plan => panic!("{plan:?}"),
        }
    }
}

#[test]
fn plans_can_be_carried_out_by_hand() {
    let background = image_frame(inks(1, 1, &[5]), scale(1., 1.));
    let foreground = image_frame(inks(1, 1, &[9]), place(1., 0., 1., 1.));
    let plan = BlendPlan::Canvas { start: (0, 0), end: (2, 1) };
    let result = blend_by_plan(plan, foreground, background, &over);
    assert_eq!(values(&result.image), vec![5, 9]);
}

// Extension

#[test]
fn covering_foreground_is_returned() {
    let foreground = || image_frame(inks(2, 1, &[8, 9]), scale(2., 1.));
    let background = image_frame(inks(1, 1, &[1]), scale(1., 1.));
    assert_eq!(extend_image_node(foreground(), background, &over), foreground());
    let wide = image_frame(inks(4, 1, &[1, 2, 3, 4]), scale(4., 1.));
    let result = ExtendImageNode::new(wide).eval(foreground(), &over);
    assert_eq!(values(&result.image), vec![8, 9, 3, 4]);
    assert_eq!(result.transform, scale(4., 1.));
}

#[test]
fn image_grows_to_cover_the_bounds() {
    let image = image_frame(inks(2, 2, &[1, 2, 3, 4]), scale(2., 2.));
    // In pixels the bounds go from (-1.5, -0.5) to (1.5, 2.5): one row above, one row below
    // and two columns to the left are added.
    let bounds = place(-1.5, -0.5, 3., 3.);
    let result = extend_image_to_bounds_node(image, bounds);
    assert_eq!((result.image.width, result.image.height), (4, 4));
    assert_eq!(
        values(&result.image),
        vec![0, 0, 0, 0, 0, 0, 1, 2, 0, 0, 3, 4, 0, 0, 0, 0]
    );
    assert_eq!(result.image.get_pixel(0, 0), Some(Ink::TRANSPARENT));
    assert_eq!(result.image.get_pixel(2, 1), Some(ink(1)));
    assert_eq!(result.transform, place(-2., -1., 4., 4.));
}

#[test]
fn image_that_covers_the_bounds_is_kept() {
    let image = || image_frame(inks(2, 2, &[1, 2, 3, 4]), scale(2., 2.));
    let node = ExtendImageToBoundsNode::new(place(0.5, 0.5, 1., 1.));
    assert_eq!(node.eval(image()), image());
    assert_eq!(plan_bounds(scale(2., 2.), 2, 2, node.bounds), BoundsPlan::Keep);
    assert_eq!(node.checked_eval(image()), Some(image()));
}

#[test]
fn image_without_pixels_becomes_blank() {
    let image = image_frame(inks(0, 2, &[]), scale(1., 1.));
    let bounds = place(5., 5., 3.9, 2.);
    let result = ExtendImageToBoundsNode::new(bounds).eval(image);
    assert_eq!((result.image.width, result.image.height), (3, 2));
    assert_eq!(result.image.data, vec![Ink::TRANSPARENT; 6]);
    assert_eq!(result, EmptyImageNode::new(Ink::TRANSPARENT).eval(bounds));
}

#[test]
fn extension_that_cannot_be_stored_is_refused() {
    let image = image_frame(inks(1, 1, &[1]), scale(1., 1.));
    // The row of the image would start at pixel 10^12.
    let node = ExtendImageToBoundsNode::new(place(-1e6, -1e6, 1e6, 1e6));
    assert_eq!(node.checked_eval(image), None);
    let short = Image { width: 2, height: 1, data: vec![ink(1)] };
    let node = ExtendImageToBoundsNode::new(scale(3., 1.));
    assert_eq!(node.checked_eval(image_frame(short, scale(2., 1.))), None);
}

#[test]
fn larger_image_has_a_place_for_the_image() {
    for (transform, bounds) in [
        (scale(2., 2.), place(-1.5, -0.5, 3., 3.)),
        (place(0.3, 0.7, 0.1, -0.9), place(-12.34, 5.6, 99.9, -3.)),
        (scale(2., 2.), place(f64::NAN, 0., 1., 1.)),
        (scale(0., 1.), place(-3., -3., 9., 9.)),
    ] {
        match plan_bounds(transform, 7, 5, bounds) {
            BoundsPlan::Grow { width, height, left, top, .. } => {
                assert!(width == u32::MAX || left + 7 <= width);
                assert!(height == u32::MAX || top + 5 <= height);
            }
            plan => panic!("{plan:?}"),
        }
    }
}

#[test]
fn second_extension_changes_nothing_if_the_first_covers_the_bounds() {
    let node = ExtendImageToBoundsNode::new(place(-1.5, -0.5, 3., 3.));
    let once = || node.eval(image_frame(inks(2, 2, &[1, 2, 3, 4]), scale(2., 2.)));
    assert_eq!(node.eval(once()), once());
    // Here the bounds and the enlarged image should start together, at -0.9; rounded, the image
    // starts a little later.
    let node = ExtendImageToBoundsNode::new(place(-0.9, 0., 1.9, 1.));
    let once = node.eval(image_frame(Image::new(7, 1, ink(1)), place(1.5, 0., 0.6, 1.)));
    assert_eq!((once.image.width, once.image.height), (35, 1));
    let twice = node.eval(once);
    assert_eq!((twice.image.width, twice.image.height), (36, 1));
}

#[test]
fn extension_plans_can_be_carried_out_by_hand() {
    let image = image_frame(inks(1, 1, &[5]), scale(1., 1.));
    let transform = place(0., -1., 3., 2.);
    let plan = BoundsPlan::Grow { width: 3, height: 2, left: 1, top: 1, transform };
    assert!(plan.is_feasible(&image.image));
    let result = extend_by_plan(plan, image, scale(9., 9.));
    assert_eq!(values(&result.image), vec![0, 0, 0, 0, 5, 0]);
    assert_eq!(result.transform, transform);
    let one = inks(1, 1, &[5]);
    let grow = |width: u32, height: u32, left: u32, top: u32| {
        BoundsPlan::Grow { width, height, left, top, transform }.is_feasible(&one)
    };
    // Only the pixels up to the last of the image must have 32-bit numbers.
    assert!(grow(65536, 65536, 65535, 65534));
    assert!(grow(65535, 65537, 65534, 65536));
    assert!(!grow(65535, 65538, 0, 65537));
    assert!(grow(65536, 65536, 65534, 65535));
    assert!(!grow(65536, 65536, 65535, 65535));
    assert!(!grow(u32::MAX, u32::MAX, 0, u32::MAX - 1));
    assert_eq!(grow(70000, 70000, 0, 0), usize::BITS == 64);
    assert!(!grow(3, 2, 3, 1));
    assert!(!grow(3, 2, 2, 2));
}

#[test]
fn blank_image_has_the_size_of_its_area() {
    let turned = DAffine2::from_cols(DVec2::new(3., 4.), DVec2::new(0., 2.), DVec2::ONE);
    let frame = empty_image(turned, ink(3));
    assert_eq!((frame.image.width, frame.image.height), (5, 2));
    assert_eq!(values(&frame.image), vec![3; 10]);
    assert_eq!(frame.transform, turned);
    assert_eq!(EmptyImageNode::new(ink(3)).checked_eval(turned), Some(frame));
}
