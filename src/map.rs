//! The teletext map renderer: each 2x2 block of the country template becomes
//! one mosaic cell, tinted by the temperature of the region that dominates the
//! block, and each reported temperature is written over the map at its
//! region's anchor.
use vstd::prelude::*;
use crate::config::{Country, Region, template_rows, rows_width, markers_unique, template_chars, longest};
use crate::palette::{Color, glyph_table, teletext_char, temp_color_spec, get_temp_color};
use crate::text::{chars_of, parse_whole, parse_whole_spec};
use crate::wttr::{WeatherReport, WeatherReports, current_temp};

verus! {

/// One character cell of the rendered map.
#[derive(Clone, Copy, Debug, PartialEq, Eq, Structural)]
pub struct MapCell {
    pub glyph: char,
    pub bg: Color,
    /// `None` leaves the terminal's foreground colour.
    pub fg: Option<Color>,
    pub bold: bool,
}

/// The template character at a column and row; outside the template, and
/// past the end of a short row, a space.
pub open spec fn template_char(t: Seq<Seq<char>>, col: int, row: int) -> char {
    if 0 <= row < t.len() && 0 <= col < t[row].len() {
        t[row][col]
    } else {
        ' '
    }
}

/// Width of the rendered map: half the longest row, rounded up.
pub open spec fn out_width(t: Seq<Seq<char>>) -> nat {
    (rows_width(t) + 1) / 2
}

/// Height of the rendered map: half the rows, rounded up.
pub open spec fn out_height(t: Seq<Seq<char>>) -> nat {
    (t.len() + 1) / 2
}

/// The four template characters under output cell (x, y): top left, top
/// right, bottom left, bottom right.
pub open spec fn block(t: Seq<Seq<char>>, x: int, y: int) -> Seq<char> {
    seq![
        template_char(t, 2 * x, 2 * y),
        template_char(t, 2 * x + 1, 2 * y),
        template_char(t, 2 * x, 2 * y + 1),
        template_char(t, 2 * x + 1, 2 * y + 1),
    ]
}

pub open spec fn land_bit(c: char, bit: int) -> int {
    if c != ' ' {
        bit
    } else {
        0
    }
}

/// Which quadrants of a block hold land: 1 = top left, 2 = top right,
/// 4 = bottom left, 8 = bottom right.
pub open spec fn block_mask(b: Seq<char>) -> int {
    land_bit(b[0], 1) + land_bit(b[1], 2) + land_bit(b[2], 4) + land_bit(b[3], 8)
}

pub open spec fn same_as(a: char, c: char) -> int {
    if a == c {
        1
    } else {
        0
    }
}

/// How many of the four quadrants hold `c`.
pub open spec fn land_count(b: Seq<char>, c: char) -> int {
    same_as(b[0], c) + same_as(b[1], c) + same_as(b[2], c) + same_as(b[3], c)
}

/// Quadrant `k` holds the dominant land character: land that occurs most
/// often, and the first such in the order top left, top right, bottom left,
/// bottom right.
pub open spec fn is_dominant_at(b: Seq<char>, k: int) -> bool {
    &&& 0 <= k < 4
    &&& b[k] != ' '
    &&& forall|j: int| 0 <= j < 4 && b[j] != ' ' ==> land_count(b, b[j]) <= land_count(b, b[k])
    &&& forall|j: int| 0 <= j < k && b[j] != ' ' ==> land_count(b, b[j]) < land_count(b, b[k])
}

/// The dominant land character of a block, if it holds any land.
pub open spec fn dominant_land(b: Seq<char>) -> Option<char> {
    if exists|k: int| is_dominant_at(b, k) {
        Some(b[choose|k: int| is_dominant_at(b, k)])
    } else {
        None
    }
}

/// Region `i` is the first whose marker is `c`.
pub open spec fn is_first_region(regions: Seq<Region>, c: char, i: int) -> bool {
    &&& 0 <= i < regions.len()
    &&& regions[i].char == c
    &&& forall|j: int| 0 <= j < i ==> regions[j].char != c
}

/// The region marked by `c`.
pub open spec fn region_of(regions: Seq<Region>, c: char) -> Option<int> {
    if exists|i: int| is_first_region(regions, c, i) {
        Some(choose|i: int| is_first_region(regions, c, i))
    } else {
        None
    }
}

/// The temperature text of region `i`, when its report is present and has
/// current conditions.
pub open spec fn region_temp(
    regions: Seq<Region>,
    reports: Map<Seq<char>, WeatherReport>,
    i: int,
) -> Option<Seq<char>> {
    let name = regions[i].name@;
    if reports.contains_key(name) {
        current_temp(reports[name])
    } else {
        None
    }
}

/// The background of a block: the temperature colour of the region of its
/// dominant land character, blue where there is no such land, region or
/// report.
pub open spec fn block_background(
    regions: Seq<Region>,
    reports: Map<Seq<char>, WeatherReport>,
    b: Seq<char>,
) -> Color {
    match dominant_land(b) {
        None => Color::Blue,
        Some(c) => match region_of(regions, c) {
            None => Color::Blue,
            Some(i) => match region_temp(regions, reports, i) {
                None => Color::Blue,
                Some(ts) => temp_color_spec(parse_whole_spec(ts)),
            },
        },
    }
}

/// The cell that a block becomes before temperatures are written over it.
pub open spec fn mosaic_cell(
    regions: Seq<Region>,
    reports: Map<Seq<char>, WeatherReport>,
    b: Seq<char>,
) -> MapCell {
    MapCell {
        glyph: glyph_table()[block_mask(b)],
        bg: block_background(regions, reports, b),
        fg: None,
        bold: false,
    }
}

/// Output column where region `i`'s temperature starts.
pub open spec fn anchor_x(regions: Seq<Region>, i: int) -> int {
    regions[i].temp_pos.0 as int / 2
}

/// Output row where region `i`'s temperature is written.
pub open spec fn anchor_y(regions: Seq<Region>, i: int) -> int {
    regions[i].temp_pos.1 as int / 2
}

/// Region `i`'s temperature text is written over output cell (x, y).
pub open spec fn covers(
    regions: Seq<Region>,
    reports: Map<Seq<char>, WeatherReport>,
    i: int,
    x: int,
    y: int,
) -> bool {
    match region_temp(regions, reports, i) {
        Some(ts) => y == anchor_y(regions, i) && anchor_x(regions, i) <= x < anchor_x(regions, i)
            + ts.len(),
        None => false,
    }
}

/// The last of the first `n` regions whose temperature covers (x, y): the
/// one whose text stays visible there.
pub open spec fn last_cover(
    regions: Seq<Region>,
    reports: Map<Seq<char>, WeatherReport>,
    n: int,
    x: int,
    y: int,
) -> Option<int>
    decreases n,
{
    if n <= 0 {
        None
    } else if covers(regions, reports, n - 1, x, y) {
        Some(n - 1)
    } else {
        last_cover(regions, reports, n - 1, x, y)
    }
}

/// The rendered cell at (x, y): the mosaic cell of its block, unless a
/// temperature is written over it, in which case that temperature's
/// character, in bold white on the block's background.
pub open spec fn cell_at(
    country: Country,
    reports: Map<Seq<char>, WeatherReport>,
    x: int,
    y: int,
) -> MapCell {
    let regions = country.regions@;
    let base = mosaic_cell(regions, reports, block(template_rows(country), x, y));
    match last_cover(regions, reports, regions.len() as int, x, y) {
        None => base,
        Some(i) => match region_temp(regions, reports, i) {
            Some(ts) => MapCell {
                glyph: ts[x - anchor_x(regions, i)],
                bg: base.bg,
                fg: Some(Color::White),
                bold: true,
            },
            None => base,
        },
    }
}

proof fn lemma_last_cover(
    regions: Seq<Region>,
    reports: Map<Seq<char>, WeatherReport>,
    n: int,
    x: int,
    y: int,
)
    ensures
        match last_cover(regions, reports, n, x, y) {
            Some(i) => 0 <= i < n && covers(regions, reports, i, x, y),
            None => true,
        },
    decreases n,
{
    if n > 0 && !covers(regions, reports, n - 1, x, y) {
        lemma_last_cover(regions, reports, n - 1, x, y);
    }
}

/// `g` is the rendering of `country` with `reports`.
pub open spec fn is_map_of(
    country: Country,
    reports: Map<Seq<char>, WeatherReport>,
    g: Seq<Seq<MapCell>>,
) -> bool {
    let t = template_rows(country);
    &&& g.len() == out_height(t)
    &&& forall|y: int| 0 <= y < g.len() ==> #[trigger] g[y].len() == out_width(t)
    &&& forall|y: int, x: int|
        0 <= y < g.len() && 0 <= x < g[y].len() ==> #[trigger] g[y][x] == cell_at(
            country,
            reports,
            x,
            y,
        )
}

/// The rows of a grid as sequences.
pub open spec fn grid_view(g: Seq<Vec<MapCell>>) -> Seq<Seq<MapCell>> {
    g.map_values(|row: Vec<MapCell>| row@)
}

/// The template character at a column and row.
fn template_at(rows: &Vec<Vec<char>>, col: usize, row: usize) -> (c: char)
    ensures
        c == template_char(rows@.map_values(|r: Vec<char>| r@), col as int, row as int),
{
    if row < rows.len() && col < rows[row].len() {
        rows[row][col]
    } else {
        ' '
    }
}

/// The dominant land character of a block.
fn dominant_of(b: &[char; 4]) -> (r: Option<char>)
    ensures
        r == dominant_land(b@),
{
    let ghost s = b@;
    let mut counts: [u8; 4] = [0, 0, 0, 0];
    let mut k: usize = 0;
    while k < 4
        invariant
            s == b@,
            0 <= k <= 4,
            forall|j: int| 0 <= j < k ==> counts@[j] == land_count(s, s[j]),
        decreases 4 - k,
    {
        let c = b[k];
        let mut n: u8 = 0;
        if b[0] == c {
            n = n + 1;
        }
        if b[1] == c {
            n = n + 1;
        }
        if b[2] == c {
            n = n + 1;
        }
        if b[3] == c {
            n = n + 1;
        }
        counts[k] = n;
        k = k + 1;
    }
    let mut best: Option<usize> = None;
    let mut k: usize = 0;
    while k < 4
        invariant
            s == b@,
            0 <= k <= 4,
            forall|j: int| 0 <= j < 4 ==> counts@[j] == land_count(s, s[j]),
            match best {
                None => forall|j: int| 0 <= j < k ==> s[j] == ' ',
                Some(m) => {
                    &&& m < k
                    &&& s[m as int] != ' '
                    &&& forall|j: int|
                        0 <= j < k && s[j] != ' ' ==> land_count(s, s[j]) <= land_count(s, s[m as int])
                    &&& forall|j: int|
                        0 <= j < m && s[j] != ' ' ==> land_count(s, s[j]) < land_count(s, s[m as int])
                },
            },
        decreases 4 - k,
    {
        if b[k] != ' ' {
            match best {
                None => {
                    best = Some(k);
                },
                Some(m) => {
                    if counts[k] > counts[m] {
                        best = Some(k);
                    }
                },
            }
        }
        k = k + 1;
    }
    match best {
        None => {
            assert forall|j: int| !is_dominant_at(s, j) by {}
            None
        },
        Some(m) => {
            assert(is_dominant_at(s, m as int));
            let ghost c = choose|j: int| is_dominant_at(s, j);
            assert(c == m as int) by {
                if c < m {
                    assert(land_count(s, s[c]) < land_count(s, s[m as int]));
                } else if m < c {
                    assert(land_count(s, s[m as int]) < land_count(s, s[c]));
                }
            }
            Some(b[m])
        },
    }
}

/// The first region whose marker is `c`.
fn find_region(regions: &Vec<Region>, c: char) -> (r: Option<usize>)
    ensures
        match r {
            Some(i) => region_of(regions@, c) == Some(i as int),
            None => region_of(regions@, c) is None,
        },
{
    let mut i: usize = 0;
    while i < regions.len()
        invariant
            i <= regions@.len(),
            forall|j: int| 0 <= j < i ==> regions@[j].char != c,
        decreases regions@.len() - i,
    {
        if regions[i].char == c {
            assert(is_first_region(regions@, c, i as int));
            let ghost w = choose|j: int| is_first_region(regions@, c, j);
            assert(w == i as int) by {
                if w < i {
                    assert(regions@[w].char != c);
                } else if w > i {
                    assert(regions@[i as int].char != c);
                }
            }
            return Some(i);
        }
        i = i + 1;
    }
    None
}

/// What the renderer needs of each region's report: whether it has a
/// temperature, its text, and its value.
struct RegionTemps {
    present: Vec<bool>,
    text: Vec<Vec<char>>,
    value: Vec<i32>,
}

impl RegionTemps {
    spec fn describes(&self, regions: Seq<Region>, reports: Map<Seq<char>, WeatherReport>) -> bool {
        &&& self.present@.len() == regions.len()
        &&& self.text@.len() == regions.len()
        &&& self.value@.len() == regions.len()
        &&& forall|i: int|
            0 <= i < regions.len() ==> match #[trigger] region_temp(regions, reports, i) {
                Some(ts) => self.present@[i] && self.text@[i]@ == ts && self.value@[i]
                    == parse_whole_spec(ts),
                None => !self.present@[i],
            }
    }
}

fn region_temps(regions: &Vec<Region>, reports: &WeatherReports) -> (r: RegionTemps)
    ensures
        r.describes(regions@, reports@),
{
    let mut r = RegionTemps { present: Vec::new(), text: Vec::new(), value: Vec::new() };
    let mut i: usize = 0;
    while i < regions.len()
        invariant
            i <= regions@.len(),
            r.present@.len() == i,
            r.text@.len() == i,
            r.value@.len() == i,
            forall|j: int|
                0 <= j < i ==> match #[trigger] region_temp(regions@, reports@, j) {
                    Some(ts) => r.present@[j] && r.text@[j]@ == ts && r.value@[j]
                        == parse_whole_spec(ts),
                    None => !r.present@[j],
                },
        decreases regions@.len() - i,
    {
        let ghost before = r;
        match reports.get(&regions[i].name) {
            Some(report) if report.current_condition.len() > 0 => {
                let t = report.current_condition[0].temp_C.as_str();
                r.present.push(true);
                r.text.push(chars_of(t));
                r.value.push(parse_whole(t));
            },
            _ => {
                r.present.push(false);
                r.text.push(Vec::new());
                r.value.push(0);
            },
        }
        assert forall|j: int| 0 <= j < i + 1 implies match #[trigger] region_temp(regions@, reports@, j) {
            Some(ts) => r.present@[j] && r.text@[j]@ == ts && r.value@[j] == parse_whole_spec(ts),
            None => !r.present@[j],
        } by {
            if j < i {
                assert(r.present@[j] == before.present@[j]);
                assert(r.text@[j] == before.text@[j]);
                assert(r.value@[j] == before.value@[j]);
            }
        }
        i = i + 1;
    }
    r
}

/// The mosaic cell of one block.
fn block_cell(
    regions: &Vec<Region>,
    reports: &WeatherReports,
    temps: &RegionTemps,
    b: &[char; 4],
) -> (cell: MapCell)
    requires
        temps.describes(regions@, reports@),
    ensures
        cell == mosaic_cell(regions@, reports@, b@),
{
    let mut mask: u8 = 0;
    if b[0] != ' ' {
        mask = mask + 1;
    }
    if b[1] != ' ' {
        mask = mask + 2;
    }
    if b[2] != ' ' {
        mask = mask + 4;
    }
    if b[3] != ' ' {
        mask = mask + 8;
    }
    let glyph = teletext_char(mask);
    let mut bg = Color::Blue;
    match dominant_of(b) {
        Some(c) => match find_region(regions, c) {
            Some(i) => {
                proof {
                    let _ = region_temp(regions@, reports@, i as int);
                }
                if temps.present[i] {
                    bg = get_temp_color(temps.value[i]);
                }
            },
            None => {},
        },
        None => {},
    }
    MapCell { glyph, bg, fg: None, bold: false }
}

/// The region whose temperature text stays visible at (x, y), if any.
fn overlay_at(
    regions: &Vec<Region>,
    reports: &WeatherReports,
    temps: &RegionTemps,
    x: usize,
    y: usize,
) -> (r: Option<usize>)
    requires
        temps.describes(regions@, reports@),
    ensures
        match r {
            Some(i) => last_cover(regions@, reports@, regions@.len() as int, x as int, y as int)
                == Some(i as int),
            None => last_cover(regions@, reports@, regions@.len() as int, x as int, y as int) is None,
        },
{
    let ghost n = regions@.len() as int;
    let mut i: usize = regions.len();
    while i > 0
        invariant
            temps.describes(regions@, reports@),
            n == regions@.len(),
            i <= n,
            last_cover(regions@, reports@, n, x as int, y as int) == last_cover(
                regions@,
                reports@,
                i as int,
                x as int,
                y as int,
            ),
        decreases i,
    {
        let j = i - 1;
        proof {
            let _ = region_temp(regions@, reports@, j as int);
        }
        let tx = (regions[j].temp_pos.0 / 2) as usize;
        let ty = (regions[j].temp_pos.1 / 2) as usize;
        if temps.present[j] && ty == y && tx <= x && x - tx < temps.text[j].len() {
            return Some(j);
        }
        i = j;
    }
    None
}

/// The rendered cell at (x, y).
fn render_cell(
    country: &Country,
    reports: &WeatherReports,
    rows: &Vec<Vec<char>>,
    temps: &RegionTemps,
    w: usize,
    x: usize,
    y: usize,
) -> (cell: MapCell)
    requires
        rows@.map_values(|r: Vec<char>| r@) == template_rows(*country),
        w == rows_width(template_rows(*country)),
        temps.describes(country.regions@, reports@),
        x < out_width(template_rows(*country)),
        y < out_height(template_rows(*country)),
    ensures
        cell == cell_at(*country, reports@, x as int, y as int),
{
    let ghost t = template_rows(*country);
    let nrows = rows.len();
    assert(t.len() == nrows);
    assert(2 * x + 1 <= w);
    assert(2 * y + 1 <= nrows);
    let b: [char; 4] = [
        template_at(rows, 2 * x, 2 * y),
        template_at(rows, 2 * x + 1, 2 * y),
        template_at(rows, 2 * x, 2 * y + 1),
        template_at(rows, 2 * x + 1, 2 * y + 1),
    ];
    assert(b@ =~= block(t, x as int, y as int));
    let base = block_cell(&country.regions, reports, temps, &b);
    match overlay_at(&country.regions, reports, temps, x, y) {
        Some(i) => {
            proof {
                lemma_last_cover(country.regions@, reports@, country.regions@.len() as int, x as int, y as int);
                let _ = region_temp(country.regions@, reports@, i as int);
            }
            let tx = (country.regions[i].temp_pos.0 / 2) as usize;
            MapCell {
                glyph: temps.text[i][x - tx],
                bg: base.bg,
                fg: Some(Color::White),
                bold: true,
            }
        },
        None => base,
    }
}

/// Renders `country` with `reports` into rows of teletext cells: one cell per
/// 2x2 block of the template, its glyph showing which quadrants hold land,
/// its background the temperature colour of the region that dominates it
/// (blue where none does or that region has no report), and each reported
/// temperature written over the row and columns of its region's anchor, as
/// far as the row reaches.
pub fn render_map(country: &Country, reports: &WeatherReports) -> (g: Vec<Vec<MapCell>>)
    ensures
        is_map_of(*country, reports@, grid_view(g@)),
{
    let rows = template_chars(country);
    let ghost t = template_rows(*country);
    let w = longest(&rows);
    let width = w / 2 + w % 2;
    let nrows = rows.len();
    let height = nrows / 2 + nrows % 2;
    let temps = region_temps(&country.regions, reports);
    let mut g: Vec<Vec<MapCell>> = Vec::new();
    let mut y: usize = 0;
    while y < height
        invariant
            rows@.map_values(|r: Vec<char>| r@) == t,
            t == template_rows(*country),
            t.len() == rows@.len(),
            nrows == rows@.len(),
            w == rows_width(t),
            width == out_width(t),
            height == out_height(t),
            temps.describes(country.regions@, reports@),
            y <= height,
            g@.len() == y,
            forall|yy: int| 0 <= yy < y ==> #[trigger] g@[yy]@.len() == width,
            forall|yy: int, x: int|
                0 <= yy < y && 0 <= x < width ==> #[trigger] g@[yy]@[x] == cell_at(
                    *country,
                    reports@,
                    x,
                    yy,
                ),
        decreases height - y,
    {
        let mut row: Vec<MapCell> = Vec::new();
        let mut x: usize = 0;
        while x < width
            invariant
                rows@.map_values(|r: Vec<char>| r@) == t,
                t == template_rows(*country),
                t.len() == rows@.len(),
                nrows == rows@.len(),
                w == rows_width(t),
                width == out_width(t),
                height == out_height(t),
                temps.describes(country.regions@, reports@),
                y < height,
                x <= width,
                row@.len() == x,
                forall|xx: int| 0 <= xx < x ==> #[trigger] row@[xx] == cell_at(
                    *country,
                    reports@,
                    xx,
                    y as int,
                ),
            decreases width - x,
        {
            let cell = render_cell(country, reports, &rows, &temps, w, x, y);
            row.push(cell);
            x = x + 1;
        }
        g.push(row);
        y = y + 1;
    }
    proof {
        let gv = grid_view(g@);
        assert forall|yy: int| 0 <= yy < gv.len() implies #[trigger] gv[yy].len() == out_width(t) by {
            assert(gv[yy] == g@[yy]@);
        }
        assert forall|yy: int, x: int|
            0 <= yy < gv.len() && 0 <= x < gv[yy].len() implies #[trigger] gv[yy][x] == cell_at(
                *country,
                reports@,
                x,
                yy,
            ) by {
            assert(gv[yy] == g@[yy]@);
        }
    }
    g
}

/// Region `i` covers (x, y) and no later region does: its text is the one
/// visible there.
proof fn lemma_last_cover_is(
    regions: Seq<Region>,
    reports: Map<Seq<char>, WeatherReport>,
    n: int,
    i: int,
    x: int,
    y: int,
)
    requires
        0 <= i < n,
        covers(regions, reports, i, x, y),
        forall|j: int| i < j < n ==> !covers(regions, reports, j, x, y),
    ensures
        last_cover(regions, reports, n, x, y) == Some(i),
    decreases n,
{
    if n - 1 != i {
        lemma_last_cover_is(regions, reports, n - 1, i, x, y);
    }
}

/// Every cell that no temperature is written over shows the mosaic glyph of
/// its block's land mask.
pub proof fn lemma_glyph_is_mosaic(
    country: Country,
    reports: Map<Seq<char>, WeatherReport>,
    g: Seq<Seq<MapCell>>,
    x: int,
    y: int,
)
    requires
        is_map_of(country, reports, g),
        0 <= y < g.len(),
        0 <= x < g[y].len(),
        last_cover(country.regions@, reports, country.regions@.len() as int, x, y) is None,
    ensures
        g[y][x].glyph == glyph_table()[block_mask(block(template_rows(country), x, y))],
        0 <= block_mask(block(template_rows(country), x, y)) < 16,
{
    assert(g[y][x] == cell_at(country, reports, x, y));
}

/// A cell whose block holds no land has a blue background, and, unless a
/// temperature is written over it, shows a blank.
pub proof fn lemma_sea_is_blank_blue(
    country: Country,
    reports: Map<Seq<char>, WeatherReport>,
    g: Seq<Seq<MapCell>>,
    x: int,
    y: int,
)
    requires
        is_map_of(country, reports, g),
        0 <= y < g.len(),
        0 <= x < g[y].len(),
        forall|k: int| 0 <= k < 4 ==> block(template_rows(country), x, y)[k] == ' ',
    ensures
        g[y][x].bg == Color::Blue,
        last_cover(country.regions@, reports, country.regions@.len() as int, x, y) is None
            ==> g[y][x].glyph == ' ',
{
    let b = block(template_rows(country), x, y);
    assert(g[y][x] == cell_at(country, reports, x, y));
    assert(!exists|k: int| is_dominant_at(b, k)) by {
        assert forall|k: int| !is_dominant_at(b, k) by {
            if 0 <= k < 4 {
                assert(b[k] == ' ');
            }
        }
    }
    assert(b[0] == ' ' && b[1] == ' ' && b[2] == ' ' && b[3] == ' ');
}

/// Cell (x, y) of `g` shows `c` in bold white.
pub open spec fn shows_text_char(g: Seq<Seq<MapCell>>, x: int, y: int, c: char) -> bool {
    &&& g[y][x].glyph == c
    &&& g[y][x].fg == Some(Color::White)
    &&& g[y][x].bold
}

/// The temperature text of a reported region reads left to right from its
/// anchor cell, in bold white, when its row is on the map, the text fits in
/// that row, and no later region writes over it.
pub proof fn lemma_temperature_spelled(
    country: Country,
    reports: Map<Seq<char>, WeatherReport>,
    g: Seq<Seq<MapCell>>,
    i: int,
)
    requires
        is_map_of(country, reports, g),
        0 <= i < country.regions@.len(),
        region_temp(country.regions@, reports, i) is Some,
        anchor_y(country.regions@, i) < g.len(),
        anchor_x(country.regions@, i) + region_temp(country.regions@, reports, i)->Some_0.len()
            <= out_width(template_rows(country)),
        forall|j: int, x: int|
            i < j < country.regions@.len() ==> !covers(
                country.regions@,
                reports,
                j,
                x,
                anchor_y(country.regions@, i),
            ),
    ensures
        forall|k: int|
            #![trigger region_temp(country.regions@, reports, i)->Some_0[k]]
            0 <= k < region_temp(country.regions@, reports, i)->Some_0.len() ==> shows_text_char(
                g,
                anchor_x(country.regions@, i) + k,
                anchor_y(country.regions@, i),
                region_temp(country.regions@, reports, i)->Some_0[k],
            ),
{
    let regions = country.regions@;
    let ts = region_temp(regions, reports, i)->Some_0;
    let ax = anchor_x(regions, i);
    let ay = anchor_y(regions, i);
    assert forall|k: int| #![trigger ts[k]] 0 <= k < ts.len() implies shows_text_char(g, ax + k, ay, ts[k]) by {
        assert(covers(regions, reports, i, ax + k, ay));
        lemma_last_cover_is(regions, reports, regions.len() as int, i, ax + k, ay);
        assert(g[ay].len() == out_width(template_rows(country)));
        assert(0 <= ax + k < g[ay].len());
        assert(g[ay][ax + k] == cell_at(country, reports, ax + k, ay));
        assert(ax + k - anchor_x(regions, i) == k);
    }
}

/// Every cell's background is the temperature colour of the one region
/// marked by its block's dominant land character, or blue when the block has
/// no land, no region has that marker, or that region has no report.
pub proof fn lemma_background_of_region(
    country: Country,
    reports: Map<Seq<char>, WeatherReport>,
    g: Seq<Seq<MapCell>>,
    x: int,
    y: int,
)
    requires
        is_map_of(country, reports, g),
        0 <= y < g.len(),
        0 <= x < g[y].len(),
    ensures
        g[y][x].bg == block_background(
            country.regions@,
            reports,
            block(template_rows(country), x, y),
        ),
        markers_unique(country.regions@) ==> match dominant_land(
            block(template_rows(country), x, y),
        ) {
            None => g[y][x].bg == Color::Blue,
            Some(c) => {
                &&& (forall|j: int|
                    0 <= j < country.regions@.len() ==> country.regions@[j].char != c)
                    ==> g[y][x].bg == Color::Blue
                &&& forall|j: int|
                    0 <= j < country.regions@.len() && country.regions@[j].char == c
                        ==> g[y][x].bg == match region_temp(country.regions@, reports, j) {
                        Some(ts) => temp_color_spec(parse_whole_spec(ts)),
                        None => Color::Blue,
                    }
            },
        },
{
    let regions = country.regions@;
    assert(g[y][x] == cell_at(country, reports, x, y));
    if let Some(c) = dominant_land(block(template_rows(country), x, y)) {
        assert forall|j: int|
            0 <= j < regions.len() && regions[j].char == c && markers_unique(regions)
                implies region_of(regions, c) == Some(j) by {
            assert(is_first_region(regions, c, j));
        }
    }
}

/// Rendering is a function of its inputs: two renderings of the same country
/// with the same reports are the same grid.
pub proof fn lemma_render_deterministic(
    country: Country,
    reports: Map<Seq<char>, WeatherReport>,
    g1: Seq<Seq<MapCell>>,
    g2: Seq<Seq<MapCell>>,
)
    requires
        is_map_of(country, reports, g1),
        is_map_of(country, reports, g2),
    ensures
        g1 == g2,
{
    assert forall|y: int| 0 <= y < g1.len() implies g1[y] == g2[y] by {
        assert(g1[y].len() == g2[y].len());
        assert forall|x: int| 0 <= x < g1[y].len() implies g1[y][x] == g2[y][x] by {
            assert(g1[y][x] == cell_at(country, reports, x, y));
            assert(g2[y][x] == cell_at(country, reports, x, y));
        }
        assert(g1[y] =~= g2[y]);
    }
    assert(g1 =~= g2);
}

} // verus!
