use ceefax_weather::config::{Country, Region};
use ceefax_weather::map::{render_map, MapCell};
use ceefax_weather::palette::{teletext_char, Color};
use ceefax_weather::wttr::{CurrentCondition, WeatherDesc, WeatherReport, WeatherReports};

fn report_with_temp(t: &str) -> WeatherReport {
    WeatherReport {
        current_condition: vec![CurrentCondition {
            temp_C: t.to_string(),
            FeelsLikeC: t.to_string(),
            windspeedKmph: "5".to_string(),
            winddir16Point: "N".to_string(),
            precipMM: "0.0".to_string(),
            weatherDesc: vec![WeatherDesc { value: "Cloudy".to_string() }],
        }],
        weather: vec![],
    }
}

fn region(name: &str, c: char, pos: (u16, u16)) -> Region {
    Region { name: name.to_string(), city: name.to_string(), char: c, temp_pos: pos }
}

fn country(lines: &[&str], regions: Vec<Region>) -> Country {
    Country {
        map_template: lines.iter().map(|l| l.to_string()).collect(),
        regions,
        left_text: vec![],
        footer_text: String::new(),
    }
}

fn plain(glyph: char, bg: Color) -> MapCell {
    MapCell { glyph, bg, fg: None, bold: false }
}

#[test]
fn mosaic_table_entries() {
    let expected = [
        ' ', '▘', '▝', '▀', '▖', '▌', '▞', '▛', '▗', '▚', '▐', '▜', '▄', '▙', '▟', '█',
    ];
    for (mask, c) in expected.iter().enumerate() {
        assert_eq!(teletext_char(mask as u8), *c);
    }
}

#[test]
fn single_row_template_without_reports() {
    let c = country(&["  SS"], vec![region("Scotland", 'S', (0, 0))]);
    let g = render_map(&c, &WeatherReports::new());
    assert_eq!(g.len(), 1);
    assert_eq!(g[0], vec![plain(' ', Color::Blue), plain('▀', Color::Blue)]);
}

#[test]
fn short_rows_are_padded_and_odd_sizes_round_up() {
    let c = country(&["A", "AAA", "A"], vec![]);
    let g = render_map(&c, &WeatherReports::new());
    assert_eq!(g.len(), 2);
    assert_eq!(g[0].len(), 2);
    assert_eq!(g[1].len(), 2);
    assert_eq!(g[0][0].glyph, '▙');
    assert_eq!(g[0][1].glyph, '▖');
    assert_eq!(g[1][0].glyph, '▘');
    assert_eq!(g[1][1].glyph, ' ');
}

#[test]
fn empty_template_renders_nothing() {
    let c = country(&[], vec![region("A", 'A', (0, 0))]);
    let mut reports = WeatherReports::new();
    reports.insert("A".to_string(), report_with_temp("20"));
    assert!(render_map(&c, &reports).is_empty());
}

#[test]
fn background_follows_region_temperature() {
    let c = country(
        &["AABBCCDD", "AABBCCDD"],
        vec![
            region("A", 'A', (0, 99)),
            region("B", 'B', (0, 99)),
            region("C", 'C', (0, 99)),
            region("D", 'D', (0, 99)),
        ],
    );
    let mut reports = WeatherReports::new();
    reports.insert("A".to_string(), report_with_temp("12"));
    reports.insert("B".to_string(), report_with_temp("-5"));
    reports.insert("C".to_string(), report_with_temp("15"));
    reports.insert("D".to_string(), report_with_temp("not-a-number"));
    let g = render_map(&c, &reports);
    assert_eq!(g[0], vec![
        plain('█', Color::Cyan),
        plain('█', Color::Green),
        plain('█', Color::Yellow),
        plain('█', Color::Green),
    ]);
}

#[test]
fn missing_report_leaves_blue() {
    let c = country(&["AABB"], vec![region("A", 'A', (0, 99)), region("B", 'B', (0, 99))]);
    let mut reports = WeatherReports::new();
    reports.insert("A".to_string(), report_with_temp("20"));
    let g = render_map(&c, &reports);
    assert_eq!(g[0][0].bg, Color::Yellow);
    assert_eq!(g[0][1].bg, Color::Blue);
}

#[test]
fn unknown_marker_leaves_blue() {
    let c = country(&["XX"], vec![region("A", 'A', (0, 99))]);
    let mut reports = WeatherReports::new();
    reports.insert("A".to_string(), report_with_temp("20"));
    let g = render_map(&c, &reports);
    assert_eq!(g[0][0], plain('▀', Color::Blue));
}

#[test]
fn dominant_character_decides_background() {
    // Three quadrants of B against one of A: B wins.
    let c = country(&["AB", "BB"], vec![region("A", 'A', (0, 99)), region("B", 'B', (0, 99))]);
    let mut reports = WeatherReports::new();
    reports.insert("A".to_string(), report_with_temp("20"));
    reports.insert("B".to_string(), report_with_temp("0"));
    let g = render_map(&c, &reports);
    assert_eq!(g[0][0], plain('█', Color::Green));
}

#[test]
fn tie_goes_to_the_first_quadrant() {
    let c = country(&["BA", "AB"], vec![region("A", 'A', (0, 99)), region("B", 'B', (0, 99))]);
    let mut reports = WeatherReports::new();
    reports.insert("A".to_string(), report_with_temp("20"));
    reports.insert("B".to_string(), report_with_temp("0"));
    let g = render_map(&c, &reports);
    assert_eq!(g[0][0].bg, Color::Green);
    let c2 = country(&["AB", "BA"], vec![region("A", 'A', (0, 99)), region("B", 'B', (0, 99))]);
    let g2 = render_map(&c2, &reports);
    assert_eq!(g2[0][0].bg, Color::Yellow);
}

#[test]
fn sea_cells_are_blank_and_blue() {
    let c = country(&["AA  ", "AA  "], vec![region("A", 'A', (0, 99))]);
    let mut reports = WeatherReports::new();
    reports.insert("A".to_string(), report_with_temp("20"));
    let g = render_map(&c, &reports);
    assert_eq!(g[0][1], plain(' ', Color::Blue));
}

#[test]
fn temperature_overlay_at_anchor() {
    let lines = ["EEEEEEEEEEEE", "EEEEEEEEEEEE", "EEEEEEEEEEEE", "EEEEEEEEEEEE"];
    let c = country(&lines, vec![region("East", 'E', (4, 2))]);
    let mut reports = WeatherReports::new();
    reports.insert("East".to_string(), report_with_temp("7"));
    let g = render_map(&c, &reports);
    assert_eq!(g[1].len(), 6);
    assert_eq!(g[1][2], MapCell { glyph: '7', bg: Color::Green, fg: Some(Color::White), bold: true });
    assert_eq!(g[1][3], plain('█', Color::Green));
    assert_eq!(g[1][1], plain('█', Color::Green));
}

#[test]
fn overlay_keeps_sea_background_and_clips() {
    let c = country(&["A   ", "    "], vec![region("A", 'A', (2, 0))]);
    let mut reports = WeatherReports::new();
    reports.insert("A".to_string(), report_with_temp("-12"));
    let g = render_map(&c, &reports);
    assert_eq!(g[0].len(), 2);
    assert_eq!(g[0][0], plain('▘', Color::Green));
    assert_eq!(g[0][1], MapCell { glyph: '-', bg: Color::Blue, fg: Some(Color::White), bold: true });
}

#[test]
fn overlay_row_out_of_range_is_skipped() {
    let c = country(&["AA", "AA"], vec![region("A", 'A', (0, 40))]);
    let mut reports = WeatherReports::new();
    reports.insert("A".to_string(), report_with_temp("20"));
    let g = render_map(&c, &reports);
    assert_eq!(g, vec![vec![plain('█', Color::Yellow)]]);
}

#[test]
fn rendering_twice_gives_the_same_grid() {
    let c = country(
        &["  AABB", " AABBB", "AAA BB"],
        vec![region("A", 'A', (2, 0)), region("B", 'B', (4, 2))],
    );
    let mut reports = WeatherReports::new();
    reports.insert("A".to_string(), report_with_temp("11"));
    reports.insert("B".to_string(), report_with_temp("16"));
    assert_eq!(render_map(&c, &reports), render_map(&c, &reports));
}

#[test]
fn well_formed_countries() {
    let good = country(&["AA  ", " BB "], vec![region("A", 'A', (1, 0)), region("B", 'B', (3, 1))]);
    assert!(good.is_well_formed());
    let unknown_marker = country(&["AC"], vec![region("A", 'A', (0, 0))]);
    assert!(!unknown_marker.is_well_formed());
    let shared_marker = country(&["AA"], vec![region("A", 'A', (0, 0)), region("A2", 'A', (1, 0))]);
    assert!(!shared_marker.is_well_formed());
    let anchor_outside = country(&["AA"], vec![region("A", 'A', (2, 0))]);
    assert!(!anchor_outside.is_well_formed());
    let anchor_below = country(&["AA"], vec![region("A", 'A', (0, 1))]);
    assert!(!anchor_below.is_well_formed());
    let not_ascii = country(&["AÄ"], vec![region("A", 'A', (0, 0)), region("Ä", 'Ä', (1, 0))]);
    assert!(!not_ascii.is_well_formed());
}

fn uk_country() -> Country {
    let lines = [
        "                                SSSSSSSSSSSSSSS                         ",
        "                              SSSSSSSSSSSSSSSSSSS                       ",
        "                            SSSSSSSSSSSSSSSSSSSSSSS                     ",
        "                          SSSSSSSSSSSSSSSSSSSSSSSSSS                    ",
        "                        SSSSSSSSSSSSSSSSSSSSSSSSSSSSSS                  ",
        "      IIIIIIIIII      SSSSSSSSSSSSSSSSSSSSSSSSSSSSSSSS                  ",
        "    IIIIIIIIIIIIII    SSSSSSSSSSSSSSSSSSSSSSSSSSSSSSSS                  ",
        "  IIIIIIIIIIIIIIIIII SSSSSSSSSSSSSSSSSSSSSSSSSSSSSSS                    ",
        "  IIIIIIIIIIIIIIIIII SSSSSSSSSSSSSSSSSSSSSSSSSSS                        ",
        "  IIIIIIIIIIIIIIII    NNNNNNNNNNNNNNNNSSSSSSSS                          ",
        "    IIIIIIIIIIII      NNNNNNNNNNNNNNNNNNNNNN                            ",
        "      IIIIII          NNNNNNNNNNNNNNNNNNNNNNNNNN                        ",
        "                      NNNNNNNNNNNNNNNNNNNNNNNNNNNN                      ",
        "                      NNNNNNNNNNNNNNNNNNNNNNNNNNNNNN                    ",
        "                      NNNNNNNNNNNNNNNNNNNNNNNNNNNNNN                    ",
        "        WWWWWWWW      NNNNNNNNNNNNNNNNNNNNNNNNNNNNNN                    ",
        "      WWWWWWWWWWWW    NNNNNNNNNNNNNNNNNNNNNNNNNN                        ",
        "    WWWWWWWWWWWWWWWW  NNNNNNNNNNNNNNNNNNNNNNNNNN                        ",
        "    WWWWWWWWWWWWWWWWWW  NNNNNNNNNNNNNNNNNNNN                            ",
        "    WWWWWWWWWWWWWWWWWWWW EEEEEENNNNNNNNNNNN                             ",
        "    WWWWWWWWWWWWWWWWWWWW EEEEEEEEEEEEE                                  ",
        "      WWWWWWWWWWWWWWWWWW EEEEEEEEEEEEEEE                                ",
        "        WWWWWWWWWWWWWW   EEEEEEEEEEEEEEEEEE                             ",
        "          WWWWWWWWWW     EEEEEEEEEEEEEEEEEEEEEE                         ",
        "                       EEEEEEEEEEEEEEEEEEEEEEEEEE                       ",
        "                     EEEEEEEEEEEEEEEEEEEEEEEEEEEE                       ",
        "                     EEEEEEEEEEEEEEEEEEEEEEEEEE                         ",
        "                       EEEEEEEEEEEEEEEEEEEEEE                           ",
        "                         EEEEEEEEEEEEEEEE                               ",
        "                           EEEEEEEEEE                                   ",
    ];
    country(
        &lines,
        vec![
            region("S. England", 'E', (29, 12)),
            region("Wales", 'W', (8, 9)),
            region("N. England", 'N', (24, 6)),
            region("Scotland", 'S', (24, 2)),
            region("N. Ireland", 'I', (4, 3)),
        ],
    )
}

#[test]
fn uk_map_renders() {
    let uk = uk_country();
    assert!(uk.is_well_formed());
    let mut reports = WeatherReports::new();
    reports.insert("Scotland".to_string(), report_with_temp("4"));
    reports.insert("S. England".to_string(), report_with_temp("17"));
    let g = render_map(&uk, &reports);
    assert_eq!(g.len(), 15);
    assert!(g.iter().all(|row| row.len() == 36));
    // Scotland's anchor (24, 2) lands on output cell (12, 1), which is sea.
    assert_eq!(g[1][12], MapCell { glyph: '4', bg: Color::Blue, fg: Some(Color::White), bold: true });
    assert_eq!(g[1][13].bg, Color::Green);
    // S. England's anchor (29, 12) lands on output cells (14, 6) and (15, 6).
    assert_eq!(g[6][14].glyph, '1');
    assert_eq!(g[6][15].glyph, '7');
    assert_eq!(g[6][14].bg, Color::Blue);
    assert_eq!(g[13][12], plain('█', Color::Yellow));
    // Wales has no report: its land stays blue.
    assert_eq!(g[9][4].bg, Color::Blue);
    assert_eq!(g[0][0], plain(' ', Color::Blue));
}
