use currency_exchange_api::decimal::Decimal;
use currency_exchange_api::image::{
    centered_x, convert_to_png_url, format_number, generate_summary_image, overlay_flag,
    overlay_image, plan_summary, Canvas, FlagSlot, Rgb, TextLine,
};
use currency_exchange_api::models::Country;
use currency_exchange_api::text::{contains_text, ends_with_text, replace_text};

const BLACK: Rgb = Rgb { red: 0, green: 0, blue: 0 };
const RED: Rgb = Rgb { red: 255, green: 0, blue: 0 };

fn country(name: &str, gdp: Option<Decimal>, flag: Option<&str>) -> Country {
    Country {
        id: 0,
        name: name.to_string(),
        capital: None,
        region: None,
        population: 1,
        currency_code: None,
        exchange_rate: None,
        estimated_gdp: gdp,
        flag_url: flag.map(|f| f.to_string()),
        last_refreshed_at: String::new(),
    }
}

fn line(text: &str, x: i32, y: i32, size: u32) -> TextLine {
    TextLine { text: text.to_string(), x, y, size }
}

#[test]
fn flag_address_is_rewritten() {
    assert_eq!(convert_to_png_url("https://flagcdn.com/ng.svg"), "https://flagcdn.com/w80/ng.png");
}

#[test]
fn other_addresses_are_left_alone() {
    assert_eq!(convert_to_png_url("https://example.com/ng.svg"), "https://example.com/ng.svg");
    assert_eq!(convert_to_png_url("https://flagcdn.com/ng.png"), "https://flagcdn.com/ng.png");
    assert_eq!(convert_to_png_url(""), "");
}

#[test]
fn every_occurrence_is_rewritten() {
    assert_eq!(
        convert_to_png_url("https://flagcdn.com/a.svg/flagcdn.com/b.svg"),
        "https://flagcdn.com/w80/a.png/flagcdn.com/w80/b.png"
    );
    assert_eq!(convert_to_png_url("flagcdn.com.svg"), "flagcdn.com.png");
}

#[test]
fn text_search_and_replace() {
    assert!(contains_text("abcabc", "cab"));
    assert!(contains_text("abc", ""));
    assert!(!contains_text("abc", "abcd"));
    assert!(!contains_text("abc", "ac"));
    assert!(ends_with_text("abc.svg", ".svg"));
    assert!(!ends_with_text("abc.svgx", ".svg"));
    assert!(!ends_with_text("vg", ".svg"));
    assert_eq!(replace_text("aaaa", "aa", "b"), "bb");
    assert_eq!(replace_text("aaa", "aa", "b"), "ba");
    assert_eq!(replace_text("héllo wörld", "ö", "oe"), "héllo woerld");
    assert_eq!(replace_text("abc", "", "x"), "abc");
    assert_eq!(replace_text("abc", "abcd", "x"), "abc");
}

#[test]
fn numbers_get_suffixes_at_the_thresholds() {
    assert_eq!(format_number(Decimal::from_integer(0)), "0");
    assert_eq!(format_number(Decimal::from_integer(999)), "999");
    assert_eq!(format_number(Decimal::from_integer(1_000)), "1.0K");
    assert_eq!(format_number(Decimal::from_integer(999_999)), "1000.0K");
    assert_eq!(format_number(Decimal::from_integer(1_000_000)), "1.0M");
    assert_eq!(format_number(Decimal::from_integer(15_000_000)), "15.0M");
    assert_eq!(format_number(Decimal::from_integer(1_000_000_000)), "1.0B");
    assert_eq!(format_number(Decimal::from_units(25_767_448_125_200_000)), "25.8B");
}

#[test]
fn numbers_round_half_to_even() {
    assert_eq!(format_number(Decimal::from_integer(1_250)), "1.2K");
    assert_eq!(format_number(Decimal::from_integer(1_350)), "1.4K");
    assert_eq!(format_number(Decimal::from_units(1_250_000_001)), "1.3K");
    assert_eq!(format_number(Decimal::from_integer(1_249)), "1.2K");
}

#[test]
fn small_numbers_are_written_in_full() {
    assert_eq!(format_number(Decimal::from_units(500_000)), "0.5");
    assert_eq!(format_number(Decimal::from_units(12_345_678)), "12.345678");
    assert_eq!(format_number(Decimal::from_units(12_000_001)), "12.000001");
    assert_eq!(format_number(Decimal::from_units(999_999_999)), "999.999999");
    assert_eq!(format_number(Decimal::from_integer(-5)), "-5");
    assert_eq!(format_number(Decimal::from_integer(-5_000_000_000)), "-5000000000");
    assert_eq!(format_number(Decimal::from_units(-1_500_000)), "-1.5");
}

#[test]
fn title_is_centred() {
    assert_eq!(centered_x(800, 400), 200);
    assert_eq!(centered_x(800, 401), 199);
    assert_eq!(centered_x(800, 800), 0);
    assert_eq!(centered_x(800, 900), 0);
}

#[test]
fn canvas_is_filled() {
    let canvas = Canvas::new(3, 2, RED).unwrap();
    assert_eq!(canvas.width(), 3);
    assert_eq!(canvas.height(), 2);
    for y in 0..2 {
        for x in 0..3 {
            assert_eq!(canvas.get_pixel(x, y), RED);
        }
    }
    let empty = Canvas::new(0, 5, RED).unwrap();
    assert_eq!(empty.width(), 0);
}

#[test]
fn put_pixel_sets_one_place() {
    let mut canvas = Canvas::new(3, 2, BLACK).unwrap();
    canvas.put_pixel(2, 1, RED);
    for y in 0..2 {
        for x in 0..3 {
            let expected = if (x, y) == (2, 1) { RED } else { BLACK };
            assert_eq!(canvas.get_pixel(x, y), expected);
        }
    }
}

#[test]
fn overlay_is_laid_over_and_cut_off() {
    let mut base = Canvas::new(4, 3, BLACK).unwrap();
    let mut flag = Canvas::new(2, 2, RED).unwrap();
    let green = Rgb { red: 0, green: 255, blue: 0 };
    flag.put_pixel(1, 0, green);
    overlay_image(&mut base, &flag, 3, 1);
    for y in 0..3 {
        for x in 0..4 {
            let expected = if x == 3 && (y == 1 || y == 2) { RED } else { BLACK };
            assert_eq!(base.get_pixel(x, y), expected);
        }
    }
    overlay_image(&mut base, &flag, 0, 0);
    assert_eq!(base.get_pixel(0, 0), RED);
    assert_eq!(base.get_pixel(1, 0), green);
    assert_eq!(base.get_pixel(0, 1), RED);
    assert_eq!(base.get_pixel(1, 1), RED);
    assert_eq!(base.get_pixel(2, 0), BLACK);
}

#[test]
fn overlay_far_outside_changes_nothing() {
    let mut base = Canvas::new(2, 2, BLACK).unwrap();
    let flag = Canvas::new(2, 2, RED).unwrap();
    overlay_image(&mut base, &flag, u32::MAX, u32::MAX);
    overlay_image(&mut base, &flag, 2, 0);
    assert_eq!(base, Canvas::new(2, 2, BLACK).unwrap());
}

#[test]
fn a_missing_flag_leaves_the_canvas() {
    let mut base = Canvas::new(3, 3, BLACK).unwrap();
    overlay_flag(&mut base, &None, 1, 1);
    assert_eq!(base, Canvas::new(3, 3, BLACK).unwrap());
    overlay_flag(&mut base, &Some(Canvas::new(1, 2, RED).unwrap()), 1, 1);
    for y in 0..3 {
        for x in 0..3 {
            let expected = if x == 1 && y >= 1 { RED } else { BLACK };
            assert_eq!(base.get_pixel(x, y), expected);
        }
    }
}

#[test]
fn summary_lists_the_first_five() {
    let top = vec![
        country("Nigeria", Some(Decimal::from_units(25_767_448_125_200_000)), Some("https://flagcdn.com/ng.svg")),
        country("Ghana", Some(Decimal::from_integer(15_000_000)), None),
        country("Nowhere", Some(Decimal::zero()), Some("https://example.com/x.png")),
        country("Unknown", None, None),
        country("Five", Some(Decimal::from_integer(1)), None),
        country("Six", Some(Decimal::from_integer(1)), Some("https://flagcdn.com/six.svg")),
    ];
    let plan = plan_summary(250, &top, "2018-01-26 18:30:09 UTC", 400);
    assert_eq!(plan.width, 800);
    assert_eq!(plan.height, 600);
    assert_eq!(
        plan.lines,
        vec![
            line("Country Data Summary", 200, 30, 40),
            line("Total Countries: 250", 30, 100, 24),
            line("Top 5 by GDP:", 30, 150, 24),
            line("1. Nigeria - $25.8B", 100, 205, 24),
            line("2. Ghana - $15.0M", 100, 265, 24),
            line("3. Nowhere - $0", 100, 325, 24),
            line("4. Unknown - N/A", 100, 385, 24),
            line("5. Five - $1", 100, 445, 24),
            line("Last Updated: 2018-01-26 18:30:09 UTC", 30, 520, 24),
        ]
    );
    assert_eq!(
        plan.flags,
        vec![
            FlagSlot { url: "https://flagcdn.com/w80/ng.png".to_string(), x: 50, y: 200, width: 40, height: 30 },
            FlagSlot { url: "https://example.com/x.png".to_string(), x: 50, y: 320, width: 40, height: 30 },
        ]
    );
}

#[test]
fn summary_of_an_empty_store() {
    let plan = plan_summary(0, &Vec::new(), "never", 900);
    assert_eq!(
        plan.lines,
        vec![
            line("Country Data Summary", 0, 30, 40),
            line("Total Countries: 0", 30, 100, 24),
            line("Top 5 by GDP:", 30, 150, 24),
            line("Last Updated: never", 30, 520, 24),
        ]
    );
    assert!(plan.flags.is_empty());
}

#[test]
fn summary_shows_a_negative_total_with_its_sign() {
    let plan = plan_summary(-12, &Vec::new(), "never", 0);
    assert_eq!(plan.lines[1].text, "Total Countries: -12");
    assert_eq!(plan.lines[0].x, 400);
}

#[test]
fn summary_stamp_comes_from_the_instant() {
    let plan = generate_summary_image(1, &Vec::new(), 1_516_991_409_453, 400).unwrap();
    assert_eq!(plan.lines[3].text, "Last Updated: 2018-01-26 18:30:09 UTC");
    assert!(generate_summary_image(1, &Vec::new(), i64::MIN, 400).is_none());
}
