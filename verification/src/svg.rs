//! The vector document that describes a mask: rectangles for stripes, rotated
//! text for a text grid, in a coordinate system that is the pixel grid.

use vstd::prelude::*;
use vstd::string::StringExecFns;
use xml_builder::XMLElement;
use crate::color::{hex_with_alpha_text, Color};
use crate::coords::{tile_positions, CoordinateIter};
use crate::digits::{decimal_digits, decimal_string, decimal_text, push_decimal, push_decimal_digits};
use crate::mask::{lemma_row_start_next, row_start, rows_in_range, MaskConfig, MaskContent};
use crate::xml::{
    add_attribute,
    add_child,
    add_text,
    element_model,
    new_element,
    ElementModel,
};

verus! {

/// Where band `i` of `count` bands begins, in an image of the given height.
pub open spec fn band_top(height: int, count: int, i: int) -> int {
    height * i / count
}

/// The height of each of `count` bands: the quotient is truncated, so the
/// bands may leave a strip at the bottom uncovered.
pub open spec fn band_height(height: int, count: int) -> int {
    height / count
}

/// The colour of band `i`: the first colour for even bands, the second for odd ones.
pub open spec fn band_color(color1: Color, color2: Color, i: int) -> Color {
    if i % 2 == 0 {
        color1
    } else {
        color2
    }
}

/// A filled rectangle that spans the width, from `y` down over `height` pixels.
pub open spec fn rect_element(y: int, width: int, height: int, fill: Seq<char>) -> ElementModel {
    ElementModel::empty("rect"@).with_attribute("x"@, "0"@).with_attribute(
        "y"@,
        decimal_digits(y as nat),
    ).with_attribute("width"@, decimal_digits(width as nat)).with_attribute(
        "height"@,
        decimal_digits(height as nat),
    ).with_attribute("fill"@, fill)
}

/// The rectangle of band `i`.
pub open spec fn stripe_element(
    color1: Color,
    color2: Color,
    count: int,
    alpha: u8,
    width: int,
    height: int,
    i: int,
) -> ElementModel {
    rect_element(
        band_top(height, count, i),
        width,
        band_height(height, count),
        hex_with_alpha_text(band_color(color1, color2, i), alpha),
    )
}

/// The rectangles of all bands, from the top.
pub open spec fn stripe_elements(
    color1: Color,
    color2: Color,
    count: int,
    alpha: u8,
    width: int,
    height: int,
) -> Seq<ElementModel> {
    Seq::new(
        count as nat,
        |i: int| stripe_element(color1, color2, count, alpha, width, height, i),
    )
}

/// What all instances of a text mask share.
pub struct TextStyle {
    pub fill: Seq<char>,
    pub font: Seq<char>,
    pub font_size: Seq<char>,
    pub rotation: Seq<char>,
    pub text: Seq<char>,
}

/// The transform that turns an instance about its own anchor.
pub open spec fn rotation_text(rotation: Seq<char>, x: int, y: int) -> Seq<char> {
    "rotate("@ + rotation + " "@ + decimal_text(x) + " "@ + decimal_text(y) + ")"@
}

/// One instance of the text, anchored at `(x, y)`.
pub open spec fn text_element(x: int, y: int, style: TextStyle) -> ElementModel {
    ElementModel::empty("text"@).with_attribute("x"@, decimal_text(x)).with_attribute(
        "y"@,
        decimal_text(y),
    ).with_attribute("fill"@, style.fill).with_attribute("font-family"@, style.font).with_attribute(
        "font-size"@,
        style.font_size,
    ).with_attribute("transform"@, rotation_text(style.rotation, x, y)).with_text(style.text)
}

/// One row of instances, at the given anchors.
pub open spec fn row_elements(xs: Seq<int>, y: int, style: TextStyle) -> Seq<ElementModel> {
    Seq::new(xs.len(), |i: int| text_element(xs[i], y, style))
}

/// The first `rows` rows of a text grid, row by row from the top. Row `k`
/// lies at `ys[k]` and starts at `offset_x + k * row_slide`.
pub open spec fn grid_elements(
    ys: Seq<int>,
    offset_x: int,
    row_slide: int,
    stride_x: int,
    width: int,
    style: TextStyle,
    rows: int,
) -> Seq<ElementModel>
    decreases rows,
{
    if rows <= 0 {
        Seq::empty()
    } else {
        grid_elements(ys, offset_x, row_slide, stride_x, width, style, rows - 1) + row_elements(
            tile_positions(row_start(offset_x, row_slide, rows - 1), stride_x, width),
            ys[rows - 1],
            style,
        )
    }
}

/// The value of the root's `viewbox` attribute.
pub open spec fn viewbox_text(width: int, height: int) -> Seq<char> {
    "0 0 "@ + decimal_digits(width as nat) + " "@ + decimal_digits(height as nat)
}

/// The root of a mask document, before any shape is added.
pub open spec fn svg_root(width: int, height: int) -> ElementModel {
    ElementModel::empty("svg"@).with_attribute(
        "xmlns"@,
        "http://www.w3.org/2000/svg"@,
    ).with_attribute("viewbox"@, viewbox_text(width, height))
}

/// `root` with `children` added behind the children it has.
pub open spec fn with_children(root: ElementModel, children: Seq<ElementModel>) -> ElementModel {
    ElementModel { children: root.children + children, ..root }
}

/// The shapes of a mask at the given size.
pub open spec fn mask_elements(mask: MaskConfig, width: int, height: int) -> Seq<ElementModel> {
    match mask.content {
        MaskContent::Stripes { color1, color2, stripe_count } => stripe_elements(
            color1,
            color2,
            stripe_count as int,
            mask.alpha,
            width,
            height,
        ),
        MaskContent::Text {
            text,
            font,
            color,
            font_size,
            rotation,
            row_slide,
            offset_x,
            stride_x,
            offset_y,
            stride_y,
        } => {
            let ys = tile_positions(offset_y as int, stride_y as int, height);
            grid_elements(
                ys,
                offset_x as int,
                row_slide as int,
                stride_x as int,
                width,
                TextStyle {
                    fill: hex_with_alpha_text(color, mask.alpha),
                    font: font@,
                    font_size: font_size@,
                    rotation: rotation@,
                    text: text@,
                },
                ys.len() as int,
            )
        },
    }
}

/// The document of a mask at the given size.
pub open spec fn mask_document(mask: MaskConfig, width: int, height: int) -> ElementModel {
    with_children(svg_root(width, height), mask_elements(mask, width, height))
}

/// A single band covers the whole image, in the first colour.
pub proof fn lemma_single_stripe(color1: Color, color2: Color, alpha: u8, width: int, height: int)
    ensures
        stripe_elements(color1, color2, 1, alpha, width, height) == seq![
            rect_element(0, width, height, hex_with_alpha_text(color1, alpha)),
        ],
{
    assert(stripe_elements(color1, color2, 1, alpha, width, height) =~= seq![
        rect_element(0, width, height, hex_with_alpha_text(color1, alpha)),
    ]);
}

/// Quotients add up to no more than the quotient of the sum.
proof fn lemma_quotients_add(a: int, b: int, c: int)
    requires
        0 <= a,
        0 <= b,
        1 <= c,
    ensures
        a / c + b / c <= (a + b) / c,
{
    vstd::arithmetic::div_mod::lemma_fundamental_div_mod(a, c);
    vstd::arithmetic::div_mod::lemma_fundamental_div_mod(b, c);
    vstd::arithmetic::div_mod::lemma_fundamental_div_mod(a + b, c);
    vstd::arithmetic::div_mod::lemma_mod_bound(a, c);
    vstd::arithmetic::div_mod::lemma_mod_bound(b, c);
    vstd::arithmetic::div_mod::lemma_mod_bound(a + b, c);
    let q1 = a / c;
    let q2 = b / c;
    let q3 = (a + b) / c;
    assert(q1 + q2 <= q3) by (nonlinear_arith)
        requires
            1 <= c,
            c * q3 + (a + b) % c == c * q1 + a % c + c * q2 + b % c,
            0 <= a % c < c,
            0 <= b % c < c,
            0 <= (a + b) % c < c,
    ;
}

/// The bands lie one below the other without overlap, and none reaches
/// below the image: a band ends no later than the next one begins, and the
/// band after the last would begin at the bottom edge.
pub proof fn lemma_bands_in_order(height: int, count: int, i: int)
    requires
        0 <= height,
        1 <= count,
        0 <= i < count,
    ensures
        0 <= band_top(height, count, i),
        band_top(height, count, i) + band_height(height, count) <= band_top(
            height,
            count,
            i + 1,
        ),
        band_top(height, count, i + 1) <= height,
        band_top(height, count, 0) == 0,
        band_top(height, count, count) == height,
{
    assert(height * (i + 1) == height * i + height) by (nonlinear_arith);
    assert(0 <= height * i <= height * (i + 1) <= height * count) by (nonlinear_arith)
        requires
            0 <= height,
            0 <= i < count,
    ;
    assert(height * 0 == 0) by (nonlinear_arith);
    lemma_quotients_add(height * i, height, count);
    vstd::arithmetic::div_mod::lemma_div_pos_is_pos(height * i, count);
    vstd::arithmetic::div_mod::lemma_div_is_ordered(height * (i + 1), height * count, count);
    vstd::arithmetic::div_mod::lemma_div_multiples_vanish(height, count);
    assert(height * count == count * height) by (nonlinear_arith);
}

/// Where band `i` of `count` begins.
pub fn stripe_top(height: u32, count: u32, i: u32) -> (y: u32)
    requires
        count >= 1,
        i < count,
    ensures
        y == band_top(height as int, count as int, i as int),
        y <= height,
{
    assert(height * i <= 0xffff_ffff * 0xffff_ffff) by (nonlinear_arith)
        requires
            0 <= height <= 0xffff_ffff,
            0 <= i <= 0xffff_ffff,
    ;
    let product: u64 = height as u64 * i as u64;
    assert(product as int / count as int <= height) by (nonlinear_arith)
        requires
            product == height * i,
            0 <= i < count,
            0 <= height,
    ;
    (product / count as u64) as u32
}

/// The height of each of `count` bands.
pub fn stripe_height(height: u32, count: u32) -> (h: u32)
    requires
        count >= 1,
    ensures
        h == band_height(height as int, count as int),
{
    height / count
}

fn rect_node(y: u32, width: u32, height: u32, fill: &str) -> (e: XMLElement)
    ensures
        element_model(e) == rect_element(y as int, width as int, height as int, fill@),
{
    let mut rect = new_element("rect");
    add_attribute(&mut rect, "x", "0");
    add_attribute(&mut rect, "y", decimal_string(y).as_str());
    add_attribute(&mut rect, "width", decimal_string(width).as_str());
    add_attribute(&mut rect, "height", decimal_string(height).as_str());
    add_attribute(&mut rect, "fill", fill);
    rect
}

fn rotation_string(rotation: &str, x: i32, y: i32) -> (s: String)
    ensures
        s@ == rotation_text(rotation@, x as int, y as int),
{
    let mut s = String::from_str("rotate(");
    s.append(rotation);
    s.append(" ");
    push_decimal(&mut s, x);
    s.append(" ");
    push_decimal(&mut s, y);
    s.append(")");
    s
}

fn signed_string(n: i32) -> (s: String)
    ensures
        s@ == decimal_text(n as int),
{
    let mut s = String::new();
    push_decimal(&mut s, n);
    assert(s@ =~= decimal_text(n as int));
    s
}

fn text_node(
    x: i32,
    y: i32,
    fill: &str,
    font: &str,
    font_size: &str,
    rotation: &str,
    text: &String,
) -> (e: XMLElement)
    ensures
        element_model(e) == text_element(
            x as int,
            y as int,
            TextStyle {
                fill: fill@,
                font: font@,
                font_size: font_size@,
                rotation: rotation@,
                text: text@,
            },
        ),
{
    let mut node = new_element("text");
    add_attribute(&mut node, "x", signed_string(x).as_str());
    add_attribute(&mut node, "y", signed_string(y).as_str());
    add_attribute(&mut node, "fill", fill);
    add_attribute(&mut node, "font-family", font);
    add_attribute(&mut node, "font-size", font_size);
    add_attribute(&mut node, "transform", rotation_string(rotation, x, y).as_str());
    let _ = add_text(&mut node, text.clone());
    node
}

fn add_stripes(
    svg: &mut XMLElement,
    color1: Color,
    color2: Color,
    stripe_count: u32,
    alpha: u8,
    width: u32,
    height: u32,
)
    requires
        stripe_count >= 1,
        element_model(*old(svg)).text is None,
    ensures
        element_model(*final(svg)) == with_children(
            element_model(*old(svg)),
            stripe_elements(
                color1,
                color2,
                stripe_count as int,
                alpha,
                width as int,
                height as int,
            ),
        ),
{
    let fill1 = color1.hex_with_alpha(alpha);
    let fill2 = color2.hex_with_alpha(alpha);
    let ghost all = stripe_elements(
        color1,
        color2,
        stripe_count as int,
        alpha,
        width as int,
        height as int,
    );
    let ghost before = element_model(*svg);
    assert(with_children(before, all.take(0)) == before) by {
        assert(before.children + all.take(0) =~= before.children);
    }
    let mut i: u32 = 0;
    while i < stripe_count
        invariant
            i <= stripe_count,
            stripe_count >= 1,
            before.text is None,
            fill1@ == hex_with_alpha_text(color1, alpha),
            fill2@ == hex_with_alpha_text(color2, alpha),
            all == stripe_elements(
                color1,
                color2,
                stripe_count as int,
                alpha,
                width as int,
                height as int,
            ),
            element_model(*svg) == with_children(before, all.take(i as int)),
        decreases stripe_count - i,
    {
        let y = stripe_top(height, stripe_count, i);
        let band = stripe_height(height, stripe_count);
        let fill = if i % 2 == 0 {
            fill1.as_str()
        } else {
            fill2.as_str()
        };
        let rect = rect_node(y, width, band, fill);
        assert(element_model(rect) == all[i as int]);
        let _ = add_child(svg, rect);
        assert(before.children + all.take(i + 1) =~= (before.children + all.take(i as int)).push(
            all[i as int],
        ));
        i += 1;
    }
    assert(all.take(stripe_count as int) =~= all);
}

fn add_text_row(
    svg: &mut XMLElement,
    start: i32,
    stride_x: u32,
    width: u32,
    y: i32,
    fill: &str,
    font: &str,
    font_size: &str,
    rotation: &str,
    text: &String,
)
    requires
        1 <= stride_x <= i32::MAX,
        width <= i32::MAX,
        element_model(*old(svg)).text is None,
    ensures
        element_model(*final(svg)) == with_children(
            element_model(*old(svg)),
            row_elements(
                tile_positions(start as int, stride_x as int, width as int),
                y as int,
                TextStyle {
                    fill: fill@,
                    font: font@,
                    font_size: font_size@,
                    rotation: rotation@,
                    text: text@,
                },
            ),
        ),
{
    let ghost style = TextStyle {
        fill: fill@,
        font: font@,
        font_size: font_size@,
        rotation: rotation@,
        text: text@,
    };
    let ghost all = tile_positions(start as int, stride_x as int, width as int);
    let ghost before = element_model(*svg);
    let ghost mut done: Seq<int> = Seq::empty();
    let mut xs = CoordinateIter::new(start, stride_x, width);
    assert(with_children(before, row_elements(done, y as int, style)) == before) by {
        assert(before.children + row_elements(done, y as int, style) =~= before.children);
    }
    assert(done + xs.remaining() =~= all);
    loop
        invariant
            xs.well_formed(),
            xs.stride() >= 1,
            before.text is None,
            done + xs.remaining() == all,
            style == (TextStyle {
                fill: fill@,
                font: font@,
                font_size: font_size@,
                rotation: rotation@,
                text: text@,
            }),
            element_model(*svg) == with_children(before, row_elements(done, y as int, style)),
        ensures
            element_model(*svg) == with_children(before, row_elements(all, y as int, style)),
        decreases xs.remaining().len(),
    {
        let ghost rest = xs.remaining();
        match xs.next() {
            None => {
                assert(done + rest =~= done);
                break ;
            },
            Some(x) => {
                let node = text_node(x, y, fill, font, font_size, rotation, text);
                let _ = add_child(svg, node);
                proof {
                    let grown = done.push(x as int);
                    assert(row_elements(grown, y as int, style) =~= row_elements(
                        done,
                        y as int,
                        style,
                    ).push(text_element(x as int, y as int, style)));
                    assert(before.children + row_elements(grown, y as int, style) =~= (
                    before.children + row_elements(done, y as int, style)).push(
                        text_element(x as int, y as int, style),
                    ));
                    assert(grown + xs.remaining() =~= done + rest);
                    done = grown;
                }
            },
        }
    }
}

fn add_text_grid(
    svg: &mut XMLElement,
    row_slide: i32,
    offset_x: i32,
    stride_x: u32,
    offset_y: i32,
    stride_y: u32,
    width: u32,
    height: u32,
    fill: &str,
    font: &str,
    font_size: &str,
    rotation: &str,
    text: &String,
)
    requires
        1 <= stride_x <= i32::MAX,
        1 <= stride_y <= i32::MAX,
        width <= i32::MAX,
        height <= i32::MAX,
        rows_in_range(
            offset_x as int,
            row_slide as int,
            tile_positions(offset_y as int, stride_y as int, height as int).len() as int,
        ),
        element_model(*old(svg)).text is None,
    ensures
        element_model(*final(svg)) == with_children(
            element_model(*old(svg)),
            grid_elements(
                tile_positions(offset_y as int, stride_y as int, height as int),
                offset_x as int,
                row_slide as int,
                stride_x as int,
                width as int,
                TextStyle {
                    fill: fill@,
                    font: font@,
                    font_size: font_size@,
                    rotation: rotation@,
                    text: text@,
                },
                tile_positions(offset_y as int, stride_y as int, height as int).len() as int,
            ),
        ),
{
    let ghost style = TextStyle {
        fill: fill@,
        font: font@,
        font_size: font_size@,
        rotation: rotation@,
        text: text@,
    };
    let ghost ys = tile_positions(offset_y as int, stride_y as int, height as int);
    let ghost before = element_model(*svg);
    let ghost mut k: int = 0;
    let mut rows = CoordinateIter::new(offset_y, stride_y, height);
    let mut start: i64 = offset_x as i64;
    proof {
        lemma_row_start_next(offset_x as int, row_slide as int, 0);
        assert(before.children + Seq::<ElementModel>::empty() =~= before.children);
        assert(ys.take(0) + rows.remaining() =~= ys);
    }
    loop
        invariant
            rows.well_formed(),
            rows.stride() >= 1,
            1 <= stride_x <= i32::MAX,
            width <= i32::MAX,
            before.text is None,
            0 <= k <= ys.len(),
            ys.take(k) + rows.remaining() == ys,
            rows_in_range(offset_x as int, row_slide as int, ys.len() as int),
            start == row_start(offset_x as int, row_slide as int, k),
            style == (TextStyle {
                fill: fill@,
                font: font@,
                font_size: font_size@,
                rotation: rotation@,
                text: text@,
            }),
            element_model(*svg) == with_children(
                before,
                grid_elements(
                    ys,
                    offset_x as int,
                    row_slide as int,
                    stride_x as int,
                    width as int,
                    style,
                    k,
                ),
            ),
        ensures
            element_model(*svg) == with_children(
                before,
                grid_elements(
                    ys,
                    offset_x as int,
                    row_slide as int,
                    stride_x as int,
                    width as int,
                    style,
                    ys.len() as int,
                ),
            ),
        decreases rows.remaining().len(),
    {
        let ghost rest = rows.remaining();
        match rows.next() {
            None => {
                assert(ys.take(k).len() + rest.len() == ys.len());
                break ;
            },
            Some(y) => {
                proof {
                    assert(ys.take(k).len() + rest.len() == ys.len());
                    assert((ys.take(k) + rest)[k] == rest[0]);
                    assert(ys[k] == y as int);
                    assert(i32::MIN <= row_start(offset_x as int, row_slide as int, k)
                        <= i32::MAX);
                }
                add_text_row(
                    svg,
                    start as i32,
                    stride_x,
                    width,
                    y,
                    fill,
                    font,
                    font_size,
                    rotation,
                    text,
                );
                proof {
                    let so_far = grid_elements(
                        ys,
                        offset_x as int,
                        row_slide as int,
                        stride_x as int,
                        width as int,
                        style,
                        k,
                    );
                    let row = row_elements(
                        tile_positions(start as int, stride_x as int, width as int),
                        y as int,
                        style,
                    );
                    assert(before.children + (so_far + row) =~= (before.children + so_far) + row);
                    assert(ys.take(k + 1) + rows.remaining() =~= ys.take(k) + rest);
                    lemma_row_start_next(offset_x as int, row_slide as int, k);
                    k = k + 1;
                }
                start = start + row_slide as i64;
            },
        }
    }
}

/// Builds the document of a mask at the given size.
pub fn build_document(mask: &MaskConfig, width: u32, height: u32) -> (root: XMLElement)
    requires
        mask.fits(width, height),
    ensures
        element_model(root) == mask_document(*mask, width as int, height as int),
{
    let mut svg = new_element("svg");
    add_attribute(&mut svg, "xmlns", "http://www.w3.org/2000/svg");
    let mut viewbox = String::from_str("0 0 ");
    push_decimal_digits(&mut viewbox, width as u64);
    viewbox.append(" ");
    push_decimal_digits(&mut viewbox, height as u64);
    add_attribute(&mut svg, "viewbox", viewbox.as_str());
    assert(element_model(svg) == svg_root(width as int, height as int));
    match &mask.content {
        MaskContent::Stripes { color1, color2, stripe_count } => {
            add_stripes(&mut svg, *color1, *color2, *stripe_count, mask.alpha, width, height);
        },
        MaskContent::Text {
            text,
            font,
            color,
            font_size,
            rotation,
            row_slide,
            offset_x,
            stride_x,
            offset_y,
            stride_y,
        } => {
            let fill = color.hex_with_alpha(mask.alpha);
            add_text_grid(
                &mut svg,
                *row_slide,
                *offset_x,
                *stride_x,
                *offset_y,
                *stride_y,
                width,
                height,
                fill.as_str(),
                font.as_str(),
                font_size.as_str(),
                rotation.as_str(),
                text,
            );
        },
    }
    svg
}

} // verus!
