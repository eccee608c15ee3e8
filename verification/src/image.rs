//! The summary report: its raster canvas, its text lines and the flag
//! thumbnails laid over it.

use vstd::prelude::*;
use crate::clock::{report_stamp, report_stamp_text};
use crate::decimal::{Decimal, magnitude};
use crate::models::{Country, CountryView};
use crate::text::{
    append_digits, contains_text, digit_char, digits, ends_with_text, has_ending, has_part,
    replace_text, replaced,
};

verus! {

/// The raster address of a flag image: an address on `flagcdn.com` that ends
/// in `.svg` gets `.png` for every `.svg` and then `flagcdn.com/w80/` for
/// every `flagcdn.com/`; any other address is left as it is.
pub open spec fn png_url(url: Seq<char>) -> Seq<char> {
    if has_part(url, "flagcdn.com"@) && has_ending(url, ".svg"@) {
        replaced(replaced(url, ".svg"@, ".png"@), "flagcdn.com/"@, "flagcdn.com/w80/"@)
    } else {
        url
    }
}

/// Rewrites the address of a vector flag image into the address of its
/// raster form, 80 pixels wide.
pub fn convert_to_png_url(url: &str) -> (png: String)
    ensures
        png@ == png_url(url@),
{
    if contains_text(url, "flagcdn.com") && ends_with_text(url, ".svg") {
        let renamed = replace_text(url, ".svg", ".png");
        replace_text(renamed.as_str(), "flagcdn.com/", "flagcdn.com/w80/")
    } else {
        String::from_str(url)
    }
}

/// One pixel: red, green and blue.
#[derive(Clone, Copy, Debug, PartialEq, Eq, Structural)]
pub struct Rgb {
    pub red: u8,
    pub green: u8,
    pub blue: u8,
}

/// A raster image, its pixels row by row from the top left.
#[derive(Clone, Debug, PartialEq, Eq)]
pub struct Canvas {
    width: u32,
    height: u32,
    pixels: Vec<Rgb>,
}

impl Canvas {
    /// There is one pixel for each place of each row.
    pub closed spec fn wf(&self) -> bool {
        self.pixels@.len() == self.width * self.height
    }

    /// The number of pixels in a row.
    pub closed spec fn spec_width(&self) -> int {
        self.width as int
    }

    /// The number of rows.
    pub closed spec fn spec_height(&self) -> int {
        self.height as int
    }

    /// The pixel in column `x` of row `y`.
    pub closed spec fn pixel(&self, x: int, y: int) -> Rgb
        recommends
            0 <= x < self.spec_width(),
            0 <= y < self.spec_height(),
    {
        self.pixels@[y * self.width + x]
    }

    /// A place of a row lies inside the pixel list.
    proof fn lemma_place(width: int, height: int, x: int, y: int)
        requires
            0 <= x < width,
            0 <= y < height,
        ensures
            0 <= y * width,
            0 <= y * width + x < width * height,
            y * width + width <= width * height,
    {
        assert(y * width + width <= width * height) by (nonlinear_arith)
            requires
                0 <= y < height,
                0 < width,
        ;
        assert(0 <= y * width) by (nonlinear_arith)
            requires
                0 <= y,
                0 < width,
        ;
    }

    /// Two places with the same address in the pixel list are the same place.
    proof fn lemma_place_unique(width: int, x1: int, y1: int, x2: int, y2: int)
        requires
            0 <= x1 < width,
            0 <= x2 < width,
            0 <= y1,
            0 <= y2,
            y1 * width + x1 == y2 * width + x2,
        ensures
            x1 == x2,
            y1 == y2,
    {
        if y1 < y2 {
            assert(y1 * width + width <= y2 * width) by (nonlinear_arith)
                requires
                    y1 < y2,
                    0 < width,
            ;
        } else if y2 < y1 {
            assert(y2 * width + width <= y1 * width) by (nonlinear_arith)
                requires
                    y2 < y1,
                    0 < width,
            ;
        }
    }

    /// A canvas of the given size with every pixel `fill`; none where the
    /// machine cannot address that many pixels.
    pub fn new(width: u32, height: u32, fill: Rgb) -> (canvas: Option<Canvas>)
        ensures
            canvas.is_some() == (width * height <= usize::MAX),
            canvas matches Some(c) ==> {
                &&& c.wf()
                &&& c.spec_width() == width
                &&& c.spec_height() == height
                &&& forall|x: int, y: int|
                    0 <= x < width && 0 <= y < height ==> #[trigger] c.pixel(x, y) == fill
            },
    {
        assert(width * height <= 0xFFFF_FFFF * 0xFFFF_FFFF) by (nonlinear_arith)
            requires
                0 <= width <= 0xFFFF_FFFF,
                0 <= height <= 0xFFFF_FFFF,
        ;
        let wanted: u64 = (width as u64) * (height as u64);
        if wanted > usize::MAX as u64 {
            return None;
        }
        let count: usize = wanted as usize;
        let mut pixels: Vec<Rgb> = Vec::new();
        let mut k: usize = 0;
        while k < count
            invariant
                k <= count,
                pixels@.len() == k,
                forall|i: int| 0 <= i < k ==> pixels@[i] == fill,
            decreases count - k,
        {
            pixels.push(fill);
            k += 1;
        }
        let canvas = Canvas { width, height, pixels };
        proof {
            assert forall|x: int, y: int| 0 <= x < width && 0 <= y < height implies #[trigger]
                canvas.pixel(x, y) == fill by {
                Self::lemma_place(width as int, height as int, x, y);
            }
        }
        Some(canvas)
    }

    /// The number of pixels in a row.
    pub fn width(&self) -> (w: u32)
        ensures
            w == self.spec_width(),
    {
        self.width
    }

    /// The number of rows.
    pub fn height(&self) -> (h: u32)
        ensures
            h == self.spec_height(),
    {
        self.height
    }

    /// The pixel in column `x` of row `y`.
    pub fn get_pixel(&self, x: u32, y: u32) -> (p: Rgb)
        requires
            self.wf(),
            x < self.spec_width(),
            y < self.spec_height(),
        ensures
            p == self.pixel(x as int, y as int),
    {
        proof {
            Self::lemma_place(self.width as int, self.height as int, x as int, y as int);
            assert(self.pixels.len() == self.pixels@.len());
        }
        let at: usize = (y as usize) * (self.width as usize) + (x as usize);
        self.pixels[at]
    }

    /// Sets the pixel in column `x` of row `y` and leaves the others.
    pub fn put_pixel(&mut self, x: u32, y: u32, p: Rgb)
        requires
            old(self).wf(),
            x < old(self).spec_width(),
            y < old(self).spec_height(),
        ensures
            final(self).wf(),
            final(self).spec_width() == old(self).spec_width(),
            final(self).spec_height() == old(self).spec_height(),
            forall|i: int, j: int|
                0 <= i < old(self).spec_width() && 0 <= j < old(self).spec_height()
                    ==> #[trigger] final(self).pixel(i, j) == (if i == x && j == y {
                    p
                } else {
                    old(self).pixel(i, j)
                }),
    {
        proof {
            Self::lemma_place(self.width as int, self.height as int, x as int, y as int);
            assert(self.pixels.len() == self.pixels@.len());
        }
        let at: usize = (y as usize) * (self.width as usize) + (x as usize);
        self.pixels.set(at, p);
        proof {
            assert forall|i: int, j: int|
                0 <= i < old(self).spec_width() && 0 <= j < old(
                    self,
                ).spec_height() implies #[trigger] self.pixel(i, j) == (if i == x && j == y {
                p
            } else {
                old(self).pixel(i, j)
            }) by {
                Self::lemma_place(self.width as int, self.height as int, i, j);
                if j * self.width + i == y * self.width + x {
                    Self::lemma_place_unique(self.width as int, i, j, x as int, y as int);
                }
            }
        }
    }
}

/// The pixel of `base` at `(px, py)` after `overlay` was laid over it with its
/// top left corner at `(x, y)`: the overlay's pixel where the overlay covers
/// the place, else the pixel that was there.
pub open spec fn overlaid(base: Canvas, overlay: Canvas, x: int, y: int, px: int, py: int) -> Rgb {
    if x <= px < x + overlay.spec_width() && y <= py < y + overlay.spec_height() {
        overlay.pixel(px - x, py - y)
    } else {
        base.pixel(px, py)
    }
}

/// Lays `overlay` over `base` with its top left corner at `(x, y)`. What
/// falls outside `base` is cut off; the size of `base` stays.
pub fn overlay_image(base: &mut Canvas, overlay: &Canvas, x: u32, y: u32)
    requires
        old(base).wf(),
        overlay.wf(),
    ensures
        final(base).wf(),
        final(base).spec_width() == old(base).spec_width(),
        final(base).spec_height() == old(base).spec_height(),
        forall|px: int, py: int|
            0 <= px < old(base).spec_width() && 0 <= py < old(base).spec_height()
                ==> #[trigger] final(base).pixel(px, py) == overlaid(
                *old(base),
                *overlay,
                x as int,
                y as int,
                px,
                py,
            ),
{
    let ghost start = *base;
    let mut dy: u32 = 0;
    while dy < overlay.height()
        invariant
            base.wf(),
            overlay.wf(),
            start.wf(),
            dy <= overlay.spec_height(),
            base.spec_width() == start.spec_width(),
            base.spec_height() == start.spec_height(),
            forall|px: int, py: int|
                0 <= px < start.spec_width() && 0 <= py < start.spec_height()
                    ==> #[trigger] base.pixel(px, py) == (if py < y + dy {
                    overlaid(start, *overlay, x as int, y as int, px, py)
                } else {
                    start.pixel(px, py)
                }),
        decreases overlay.spec_height() - dy,
    {
        let py: u64 = y as u64 + dy as u64;
        let mut dx: u32 = 0;
        while dx < overlay.width()
            invariant
                base.wf(),
                overlay.wf(),
                start.wf(),
                dy < overlay.spec_height(),
                dx <= overlay.spec_width(),
                py == y + dy,
                base.spec_width() == start.spec_width(),
                base.spec_height() == start.spec_height(),
                forall|qx: int, qy: int|
                    0 <= qx < start.spec_width() && 0 <= qy < start.spec_height()
                        ==> #[trigger] base.pixel(qx, qy) == (if qy < y + dy || (qy == y + dy
                        && qx < x + dx) {
                        overlaid(start, *overlay, x as int, y as int, qx, qy)
                    } else {
                        start.pixel(qx, qy)
                    }),
            decreases overlay.spec_width() - dx,
        {
            let px: u64 = x as u64 + dx as u64;
            if px < base.width() as u64 && py < base.height() as u64 {
                let pixel = overlay.get_pixel(dx, dy);
                base.put_pixel(px as u32, py as u32, pixel);
            }
            dx += 1;
        }
        dy += 1;
    }
}

/// Lays a flag over `base` with its top left corner at `(x, y)`, where
/// there is one: a flag that could not be had leaves `base` as it is.
pub fn overlay_flag(base: &mut Canvas, flag: &Option<Canvas>, x: u32, y: u32)
    requires
        old(base).wf(),
        flag matches Some(f) ==> f.wf(),
    ensures
        final(base).wf(),
        final(base).spec_width() == old(base).spec_width(),
        final(base).spec_height() == old(base).spec_height(),
        forall|px: int, py: int|
            0 <= px < old(base).spec_width() && 0 <= py < old(base).spec_height()
                ==> #[trigger] final(base).pixel(px, py) == (match flag {
                Some(f) => overlaid(*old(base), *f, x as int, y as int, px, py),
                None => old(base).pixel(px, py),
            }),
{
    match flag {
        Some(f) => overlay_image(base, f, x, y),
        None => {},
    }
}

/// `n / unit` rounded to the nearest whole number; a tie goes to the even one.
pub open spec fn rounded(n: nat, unit: nat) -> nat {
    let whole = n / unit;
    let rest = n % unit;
    if 2 * rest > unit || (2 * rest == unit && whole % 2 == 1) {
        whole + 1
    } else {
        whole
    }
}

/// A count of tenths written with one fractional digit, such as `12.3`.
pub open spec fn one_decimal(tenths: nat) -> Seq<char> {
    digits(tenths / 10) + seq!['.'] + digits(tenths % 10)
}

/// The fractional digits of `rest / (10 * unit)`, without closing zeros.
pub open spec fn fraction_digits(rest: nat, unit: nat) -> Seq<char>
    decreases unit,
{
    if rest == 0 || unit == 0 {
        Seq::empty()
    } else {
        seq![digit_char((rest / unit) as int)] + fraction_digits(rest % unit, unit / 10)
    }
}

/// A count of millionths written in full: a minus sign where it is negative,
/// the whole part, and the fractional digits, if any, without closing zeros.
pub open spec fn plain_text(units: int) -> Seq<char> {
    let size = magnitude(units) as nat;
    let sign = if units < 0 {
        seq!['-']
    } else {
        Seq::empty()
    };
    let rest = size % 1_000_000;
    if rest == 0 {
        sign + digits(size / 1_000_000)
    } else {
        sign + digits(size / 1_000_000) + seq!['.'] + fraction_digits(rest, 100_000)
    }
}

/// A count of millionths as the report shows it: from a thousand million on
/// in thousand millions with the suffix `B`, from a million on in millions
/// with `M`, from a thousand on in thousands with `K`, each rounded to one
/// fractional digit; below a thousand in full.
pub open spec fn number_text(units: int) -> Seq<char> {
    if units >= 1_000_000_000_000_000 {
        one_decimal(rounded(units as nat, 100_000_000_000_000)) + seq!['B']
    } else if units >= 1_000_000_000_000 {
        one_decimal(rounded(units as nat, 100_000_000_000)) + seq!['M']
    } else if units >= 1_000_000_000 {
        one_decimal(rounded(units as nat, 100_000_000)) + seq!['K']
    } else {
        plain_text(units)
    }
}

/// `n / unit` rounded to the nearest whole number, ties to the even one.
fn round_to(n: u128, unit: u128) -> (r: u128)
    requires
        2 <= unit <= 1_000_000_000_000_000,
    ensures
        r == rounded(n as nat, unit as nat),
{
    let whole = n / unit;
    let rest = n % unit;
    assert(whole <= n / 2) by (nonlinear_arith)
        requires
            whole == n / unit,
            unit >= 2,
    ;
    if 2 * rest > unit || (2 * rest == unit && whole % 2 == 1) {
        whole + 1
    } else {
        whole
    }
}

/// Writes a count of tenths and a suffix at the end of `out`.
fn append_one_decimal(out: &mut String, tenths: u128, suffix: &str)
    ensures
        final(out)@ == old(out)@ + (one_decimal(tenths as nat) + suffix@),
{
    append_digits(out, tenths / 10);
    out.append(".");
    append_digits(out, tenths % 10);
    out.append(suffix);
    proof {
        reveal_strlit(".");
        assert("."@ =~= seq!['.']);
        assert(final(out)@ =~= old(out)@ + (one_decimal(tenths as nat) + suffix@));
    }
}

/// Writes the fractional digits of `rest` millionths at the end of `out`.
fn append_fraction(out: &mut String, rest: u128)
    requires
        rest < 1_000_000,
    ensures
        final(out)@ == old(out)@ + fraction_digits(rest as nat, 100_000),
{
    let mut left: u128 = rest;
    let mut unit: u128 = 100_000;
    proof {
        assert(out@ + fraction_digits(rest as nat, 100_000) =~= old(out)@ + fraction_digits(
            rest as nat,
            100_000,
        ));
    }
    while left != 0
        invariant
            left < unit * 10 || (unit == 0 && left == 0),
            unit == 100_000 || unit == 10_000 || unit == 1_000 || unit == 100 || unit == 10
                || unit == 1 || (unit == 0 && left == 0),
            out@ + fraction_digits(left as nat, unit as nat) == old(out)@ + fraction_digits(
                rest as nat,
                100_000,
            ),
        decreases unit,
    {
        let ghost before = out@;
        let digit: u8 = (left / unit) as u8;
        out.append(crate::text::digit_text(digit));
        proof {
            assert(before + (seq![digit_char(digit as int)] + fraction_digits(
                (left % unit) as nat,
                (unit / 10) as nat,
            )) =~= (before + seq![digit_char(digit as int)]) + fraction_digits(
                (left % unit) as nat,
                (unit / 10) as nat,
            ));
        }
        left = left % unit;
        unit = unit / 10;
    }
    proof {
        assert(out@ + Seq::<char>::empty() =~= out@);
    }
}

/// Writes a number as the report shows it, with the suffix `K`, `M` or `B`
/// from a thousand, a million or a thousand million on.
pub fn format_number(num: Decimal) -> (text: String)
    ensures
        text@ == number_text(num@),
{
    let mut text = String::new();
    let size: u128 = num.unsigned_units();
    proof {
        reveal_strlit("B");
        reveal_strlit("M");
        reveal_strlit("K");
        reveal_strlit("-");
        reveal_strlit(".");
        assert("B"@ =~= seq!['B']);
        assert("M"@ =~= seq!['M']);
        assert("K"@ =~= seq!['K']);
        assert("-"@ =~= seq!['-']);
        assert("."@ =~= seq!['.']);
    }
    if !num.is_negative() && size >= 1_000_000_000_000_000 {
        append_one_decimal(&mut text, round_to(size, 100_000_000_000_000), "B");
        assert(text@ =~= number_text(num@));
    } else if !num.is_negative() && size >= 1_000_000_000_000 {
        append_one_decimal(&mut text, round_to(size, 100_000_000_000), "M");
        assert(text@ =~= number_text(num@));
    } else if !num.is_negative() && size >= 1_000_000_000 {
        append_one_decimal(&mut text, round_to(size, 100_000_000), "K");
        assert(text@ =~= number_text(num@));
    } else {
        if num.is_negative() {
            text.append("-");
        }
        append_digits(&mut text, size / 1_000_000);
        let rest: u128 = size % 1_000_000;
        if rest != 0 {
            text.append(".");
            append_fraction(&mut text, rest);
        }
        assert(text@ =~= plain_text(num@));
    }
    text
}

/// The width of the report's canvas, in pixels.
pub const CANVAS_WIDTH: u32 = 800;

/// The height of the report's canvas, in pixels.
pub const CANVAS_HEIGHT: u32 = 600;

/// The letter size of the title, in pixels.
pub const TITLE_SIZE: u32 = 40;

/// The letter size of every other line, in pixels.
pub const TEXT_SIZE: u32 = 24;

/// The number of countries that the report lists at most.
pub const TOP_COUNT: usize = 5;

/// One line of text on the canvas: its top left corner and its letter size.
#[derive(Clone, Debug, PartialEq, Eq)]
pub struct TextLine {
    pub text: String,
    pub x: i32,
    pub y: i32,
    pub size: u32,
}

/// What a `TextLine` holds.
pub struct TextLineView {
    pub text: Seq<char>,
    pub x: int,
    pub y: int,
    pub size: int,
}

impl View for TextLine {
    type V = TextLineView;

    open spec fn view(&self) -> TextLineView {
        TextLineView {
            text: self.text@,
            x: self.x as int,
            y: self.y as int,
            size: self.size as int,
        }
    }
}

/// The place of one flag thumbnail on the canvas, and the address that its
/// image is fetched from.
#[derive(Clone, Debug, PartialEq, Eq)]
pub struct FlagSlot {
    pub url: String,
    pub x: u32,
    pub y: u32,
    pub width: u32,
    pub height: u32,
}

/// What a `FlagSlot` holds.
pub struct FlagSlotView {
    pub url: Seq<char>,
    pub x: int,
    pub y: int,
    pub width: int,
    pub height: int,
}

impl View for FlagSlot {
    type V = FlagSlotView;

    open spec fn view(&self) -> FlagSlotView {
        FlagSlotView {
            url: self.url@,
            x: self.x as int,
            y: self.y as int,
            width: self.width as int,
            height: self.height as int,
        }
    }
}

/// Everything that the report shows, ready to be drawn: the canvas is black,
/// the text white.
#[derive(Clone, Debug, PartialEq, Eq)]
pub struct SummaryPlan {
    pub width: u32,
    pub height: u32,
    pub lines: Vec<TextLine>,
    pub flags: Vec<FlagSlot>,
}

/// What a `SummaryPlan` holds.
pub struct SummaryPlanView {
    pub width: int,
    pub height: int,
    pub lines: Seq<TextLineView>,
    pub flags: Seq<FlagSlotView>,
}

impl View for SummaryPlan {
    type V = SummaryPlanView;

    open spec fn view(&self) -> SummaryPlanView {
        SummaryPlanView {
            width: self.width as int,
            height: self.height as int,
            lines: self.lines@.map_values(|l: TextLine| l@),
            flags: self.flags@.map_values(|f: FlagSlot| f@),
        }
    }
}

/// The column at which a text of the given width is centred on a canvas of
/// the given width; a text wider than the canvas starts at the left edge.
pub open spec fn centered(width: int, text_width: int) -> int {
    if text_width >= width {
        0
    } else {
        (width - text_width) / 2
    }
}

/// The column at which a text of the given width is centred.
pub fn centered_x(width: u32, text_width: u32) -> (x: u32)
    ensures
        x == centered(width as int, text_width as int),
{
    if text_width >= width {
        0
    } else {
        (width - text_width) / 2
    }
}

/// The number of countries that the report lists: the first five at most.
pub open spec fn shown(count: int) -> int {
    if count < 5 {
        count
    } else {
        5
    }
}

/// The text of one entry: rank, name, and the estimated GDP in dollars, or
/// `N/A` where it is unknown.
pub open spec fn entry_text(rank: nat, name: Seq<char>, gdp: Option<Decimal>) -> Seq<char> {
    digits(rank) + ". "@ + name + " - "@ + (match gdp {
        Some(value) => "$"@ + number_text(value@),
        None => "N/A"@,
    })
}

/// The line of the entry of rank `i + 1`.
pub open spec fn entry_line(i: int, country: CountryView) -> TextLineView {
    TextLineView {
        text: entry_text((i + 1) as nat, country.name, country.estimated_gdp),
        x: 100,
        y: 205 + 60 * i,
        size: TEXT_SIZE as int,
    }
}

/// The lines of the first `n` entries.
pub open spec fn entry_lines(top: Seq<CountryView>, n: int) -> Seq<TextLineView>
    decreases n,
{
    if n <= 0 {
        Seq::empty()
    } else {
        entry_lines(top, n - 1).push(entry_line(n - 1, top[n - 1]))
    }
}

/// The flag thumbnails of the first `n` entries: one for each entry that has
/// a flag address, 40 by 30 pixels, left of the entry's line.
pub open spec fn flag_slots(top: Seq<CountryView>, n: int) -> Seq<FlagSlotView>
    decreases n,
{
    if n <= 0 {
        Seq::empty()
    } else {
        match top[n - 1].flag_url {
            Some(url) => flag_slots(top, n - 1).push(
                FlagSlotView { url: png_url(url), x: 50, y: 200 + 60 * (n - 1), width: 40, height: 30 },
            ),
            None => flag_slots(top, n - 1),
        }
    }
}

/// The report for a total count, the countries in the order in which they
/// are to be listed, the text of the cycle's timestamp, and the measured
/// width of the title: the centred title, the total, the heading, one line
/// for each of the first five countries, and the timestamp.
pub open spec fn summary_plan(
    total_countries: int,
    top: Seq<CountryView>,
    stamp: Seq<char>,
    title_width: int,
) -> SummaryPlanView {
    SummaryPlanView {
        width: CANVAS_WIDTH as int,
        height: CANVAS_HEIGHT as int,
        lines: seq![
            TextLineView {
                text: "Country Data Summary"@,
                x: centered(CANVAS_WIDTH as int, title_width),
                y: 30,
                size: TITLE_SIZE as int,
            },
            TextLineView {
                text: "Total Countries: "@ + crate::text::int_text(total_countries),
                x: 30,
                y: 100,
                size: TEXT_SIZE as int,
            },
            TextLineView { text: "Top 5 by GDP:"@, x: 30, y: 150, size: TEXT_SIZE as int },
        ] + entry_lines(top, shown(top.len() as int)) + seq![
            TextLineView { text: "Last Updated: "@ + stamp, x: 30, y: 520, size: TEXT_SIZE as int },
        ],
        flags: flag_slots(top, shown(top.len() as int)),
    }
}

/// The text of the entry of the given rank.
fn entry_label(rank: usize, country: &Country) -> (text: String)
    ensures
        text@ == entry_text(rank as nat, country@.name, country@.estimated_gdp),
{
    let mut text = String::new();
    append_digits(&mut text, rank as u128);
    text.append(". ");
    text.append(country.name.as_str());
    text.append(" - ");
    match country.estimated_gdp {
        Some(value) => {
            let formatted = format_number(value);
            text.append("$");
            text.append(formatted.as_str());
            assert(text@ =~= entry_text(rank as nat, country@.name, country@.estimated_gdp));
        },
        None => {
            text.append("N/A");
            assert(text@ =~= entry_text(rank as nat, country@.name, country@.estimated_gdp));
        },
    }
    text
}

/// Lays out the report with the given text of the cycle's timestamp.
pub fn plan_summary(
    total_countries: i64,
    top_countries: &Vec<Country>,
    stamp: &str,
    title_width: u32,
) -> (plan: SummaryPlan)
    ensures
        plan@ == summary_plan(
            total_countries as int,
            crate::models::country_views(top_countries@),
            stamp@,
            title_width as int,
        ),
{
    let ghost top = crate::models::country_views(top_countries@);
    let mut lines: Vec<TextLine> = Vec::new();
    let mut flags: Vec<FlagSlot> = Vec::new();
    lines.push(
        TextLine {
            text: String::from_str("Country Data Summary"),
            x: centered_x(CANVAS_WIDTH, title_width) as i32,
            y: 30,
            size: TITLE_SIZE,
        },
    );
    let mut total_text = String::from_str("Total Countries: ");
    crate::text::append_int(&mut total_text, total_countries);
    lines.push(TextLine { text: total_text, x: 30, y: 100, size: TEXT_SIZE });
    lines.push(TextLine { text: String::from_str("Top 5 by GDP:"), x: 30, y: 150, size: TEXT_SIZE });
    let ghost head = lines@.map_values(|l: TextLine| l@);
    let count: usize = if top_countries.len() < TOP_COUNT {
        top_countries.len()
    } else {
        TOP_COUNT
    };
    let mut i: usize = 0;
    proof {
        assert(head + entry_lines(top, 0) =~= head);
        assert(flags@.map_values(|f: FlagSlot| f@) =~= flag_slots(top, 0));
    }
    while i < count
        invariant
            i <= count <= 5,
            count == shown(top_countries@.len() as int),
            top == crate::models::country_views(top_countries@),
            lines@.map_values(|l: TextLine| l@) == head + entry_lines(top, i as int),
            flags@.map_values(|f: FlagSlot| f@) == flag_slots(top, i as int),
        decreases count - i,
    {
        let country = &top_countries[i];
        let row: u32 = 200 + 60 * (i as u32);
        let ghost lines_before = lines@.map_values(|l: TextLine| l@);
        let ghost flags_before = flags@.map_values(|f: FlagSlot| f@);
        assert(top[i as int] == country@);
        match &country.flag_url {
            Some(url) => {
                let slot = FlagSlot {
                    url: convert_to_png_url(url.as_str()),
                    x: 50,
                    y: row,
                    width: 40,
                    height: 30,
                };
                flags.push(slot);
                assert(flags@.map_values(|f: FlagSlot| f@) =~= flags_before.push(slot@));
            },
            None => {},
        }
        let line = TextLine {
            text: entry_label(i + 1, country),
            x: 100,
            y: (row + 5) as i32,
            size: TEXT_SIZE,
        };
        lines.push(line);
        proof {
            assert(lines@.map_values(|l: TextLine| l@) =~= lines_before.push(line@));
            assert(line@ == entry_line(i as int, top[i as int]));
            assert(head + entry_lines(top, i + 1) =~= (head + entry_lines(top, i as int)).push(
                line@,
            ));
        }
        i += 1;
    }
    let mut stamp_text = String::from_str("Last Updated: ");
    stamp_text.append(stamp);
    let ghost lines_before = lines@.map_values(|l: TextLine| l@);
    let last = TextLine { text: stamp_text, x: 30, y: 520, size: TEXT_SIZE };
    lines.push(last);
    let plan = SummaryPlan { width: CANVAS_WIDTH, height: CANVAS_HEIGHT, lines, flags };
    proof {
        assert(plan.lines@.map_values(|l: TextLine| l@) =~= lines_before.push(last@));
        assert(lines_before.push(last@) =~= lines_before + seq![last@]);
        assert(head =~= summary_plan(
            total_countries as int,
            top,
            stamp@,
            title_width as int,
        ).lines.subrange(0, 3));
        assert(plan@.lines =~= summary_plan(
            total_countries as int,
            top,
            stamp@,
            title_width as int,
        ).lines);
    }
    plan
}

/// Lays out the report of a cycle that began at the instant
/// `last_refreshed`, in milliseconds since the epoch, for the total count and
/// the countries in the order in which they are to be listed. `title_width` is
/// the measured width of the title in pixels. Nothing is laid out for an
/// instant that has no text.
pub fn generate_summary_image(
    total_countries: i64,
    top_countries: &Vec<Country>,
    last_refreshed: i64,
    title_width: u32,
) -> (plan: Option<SummaryPlan>)
    ensures
        plan.is_some() == report_stamp_text(last_refreshed as int).is_some(),
        plan matches Some(p) ==> p@ == summary_plan(
            total_countries as int,
            crate::models::country_views(top_countries@),
            report_stamp_text(last_refreshed as int).unwrap(),
            title_width as int,
        ),
{
    match report_stamp(last_refreshed) {
        Some(stamp) => Some(
            plan_summary(total_countries, top_countries, stamp.as_str(), title_width),
        ),
        None => None,
    }
}

} // verus!
