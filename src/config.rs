//! Countries, regions and the few constants of the viewer.
use vstd::prelude::*;
use vstd::string::*;
use crate::text::chars_of;

verus! {

/// How long a loaded report set stays on screen before it is fetched again,
/// in milliseconds (15 minutes).
pub const REFRESH_INTERVAL_MS: u64 = 900000;

/// The country shown when none is asked for.
pub open spec fn default_country_name() -> Seq<char> {
    "uk"@
}

/// Command-line choices: the country to show.
#[derive(Clone, Debug)]
pub struct Cli {
    pub country: String,
}

impl Cli {
    /// The choices when none are given: the United Kingdom.
    pub fn new() -> (c: Cli)
        ensures
            c.country@ == default_country_name(),
    {
        Cli { country: String::from_str("uk") }
    }
}

/// A named area of a country: the unit of fetching and of painting.
#[derive(Debug)]
pub struct Region {
    /// Shown to the user.
    pub name: String,
    /// Sent to the weather service.
    pub city: String,
    /// The marker that stands for this region in the map template.
    pub char: char,
    /// Column and row, in template cells, where the temperature is written.
    pub temp_pos: (u16, u16),
}

impl Clone for Region {
    fn clone(&self) -> (r: Region)
        ensures
            r == *self,
    {
        Region {
            name: self.name.clone(),
            city: self.city.clone(),
            char: self.char,
            temp_pos: self.temp_pos,
        }
    }
}

/// A country: its map template, its regions, and some ambient text.
#[derive(Clone, Debug)]
pub struct Country {
    /// Lines of the map; a space is sea, any other character is land of the
    /// region that has it as marker.
    pub map_template: Vec<String>,
    pub regions: Vec<Region>,
    pub left_text: Vec<String>,
    pub footer_text: String,
}

/// The map template as rows of characters.
pub open spec fn template_rows(c: Country) -> Seq<Seq<char>> {
    c.map_template@.map_values(|line: String| line@)
}

/// The length of the longest template row.
pub open spec fn rows_width(t: Seq<Seq<char>>) -> nat
    decreases t.len(),
{
    if t.len() == 0 {
        0
    } else {
        let w = rows_width(t.drop_last());
        if t.last().len() > w {
            t.last().len()
        } else {
            w
        }
    }
}

/// No two regions share a marker.
pub open spec fn markers_unique(regions: Seq<Region>) -> bool {
    forall|i: int, j: int|
        0 <= i < regions.len() && 0 <= j < regions.len() && regions[i].char == regions[j].char
            ==> i == j
}

/// Each land marker of the template belongs to exactly one region, every
/// anchor lies inside the template, and the template is ASCII.
pub open spec fn country_wf(c: Country) -> bool {
    let t = template_rows(c);
    let r = c.regions@;
    &&& forall|y: int, x: int|
        0 <= y < t.len() && 0 <= x < t[y].len() ==> t[y][x] < '\u{80}'
    &&& forall|y: int, x: int|
        0 <= y < t.len() && 0 <= x < t[y].len() && t[y][x] != ' ' ==> exists|i: int|
            0 <= i < r.len() && r[i].char == t[y][x]
    &&& markers_unique(r)
    &&& forall|i: int| 0 <= i < r.len() ==> (r[i].temp_pos.1 as int) < t.len() && (r[i].temp_pos.0 as int) < rows_width(t)
}

/// The template as rows of characters.
pub(crate) fn template_chars(country: &Country) -> (rows: Vec<Vec<char>>)
    ensures
        rows@.map_values(|r: Vec<char>| r@) == template_rows(*country),
{
    let mut rows: Vec<Vec<char>> = Vec::new();
    let mut i: usize = 0;
    while i < country.map_template.len()
        invariant
            i <= country.map_template@.len(),
            rows@.len() == i,
            forall|j: int| 0 <= j < i ==> #[trigger] rows@[j]@ == country.map_template@[j]@,
        decreases country.map_template@.len() - i,
    {
        rows.push(chars_of(country.map_template[i].as_str()));
        i = i + 1;
    }
    assert(rows@.map_values(|r: Vec<char>| r@) =~= template_rows(*country));
    rows
}

/// The length of the longest row.
pub(crate) fn longest(rows: &Vec<Vec<char>>) -> (w: usize)
    ensures
        w == rows_width(rows@.map_values(|r: Vec<char>| r@)),
{
    let ghost t = rows@.map_values(|r: Vec<char>| r@);
    let mut w: usize = 0;
    let mut i: usize = 0;
    assert(t.subrange(0, 0).len() == 0);
    while i < rows.len()
        invariant
            t == rows@.map_values(|r: Vec<char>| r@),
            i <= rows@.len(),
            w == rows_width(t.subrange(0, i as int)),
        decreases rows@.len() - i,
    {
        assert(t.subrange(0, i + 1).drop_last() =~= t.subrange(0, i as int));
        if rows[i].len() > w {
            w = rows[i].len();
        }
        i = i + 1;
    }
    assert(t.subrange(0, i as int) =~= t);
    w
}

/// Some region has marker `c`.
fn has_region(regions: &Vec<Region>, c: char) -> (r: bool)
    ensures
        r == exists|i: int| 0 <= i < regions@.len() && regions@[i].char == c,
{
    let mut i: usize = 0;
    while i < regions.len()
        invariant
            i <= regions@.len(),
            forall|j: int| 0 <= j < i ==> regions@[j].char != c,
        decreases regions@.len() - i,
    {
        if regions[i].char == c {
            return true;
        }
        i = i + 1;
    }
    false
}

impl Country {
    /// Whether the country keeps its invariants: an ASCII template, every
    /// land marker belonging to exactly one region, and every anchor inside
    /// the template.
    pub fn is_well_formed(&self) -> (r: bool)
        ensures
            r == country_wf(*self),
    {
        let rows = template_chars(self);
        let ghost t = template_rows(*self);
        let ghost regions = self.regions@;
        let mut y: usize = 0;
        while y < rows.len()
            invariant
                rows@.map_values(|r: Vec<char>| r@) == t,
                t == template_rows(*self),
                regions == self.regions@,
                y <= t.len(),
                forall|yy: int, x: int|
                    0 <= yy < y && 0 <= x < t[yy].len() ==> #[trigger] t[yy][x] < '\u{80}' && (
                    t[yy][x] != ' ' ==> exists|i: int|
                        0 <= i < regions.len() && regions[i].char == t[yy][x]),
            decreases t.len() - y,
        {
            let row = &rows[y];
            assert(row@ == t[y as int]);
            let mut x: usize = 0;
            while x < row.len()
                invariant
                    rows@.map_values(|r: Vec<char>| r@) == t,
                    t == template_rows(*self),
                    regions == self.regions@,
                    y < t.len(),
                    row@ == t[y as int],
                    x <= row@.len(),
                    forall|yy: int, xx: int|
                        0 <= yy < y && 0 <= xx < t[yy].len() ==> #[trigger] t[yy][xx] < '\u{80}'
                            && (t[yy][xx] != ' ' ==> exists|i: int|
                            0 <= i < regions.len() && regions[i].char == t[yy][xx]),
                    forall|xx: int|
                        0 <= xx < x ==> #[trigger] t[y as int][xx] < '\u{80}' && (t[y as int][xx]
                            != ' ' ==> exists|i: int|
                            0 <= i < regions.len() && regions[i].char == t[y as int][xx]),
                decreases row@.len() - x,
            {
                let c = row[x];
                if c >= '\u{80}' {
                    return false;
                }
                if c != ' ' && !has_region(&self.regions, c) {
                    return false;
                }
                x = x + 1;
            }
            y = y + 1;
        }
        let n = self.regions.len();
        let mut i: usize = 0;
        while i < n
            invariant
                n == regions.len(),
                regions == self.regions@,
                i <= n,
                forall|a: int, b: int|
                    0 <= a < i && 0 <= b < n && a != b ==> #[trigger] regions[a].char != #[trigger] regions[b].char,
            decreases n - i,
        {
            let mut j: usize = 0;
            while j < n
                invariant
                    n == regions.len(),
                    regions == self.regions@,
                    i < n,
                    j <= n,
                    forall|a: int, b: int|
                        0 <= a < i && 0 <= b < n && a != b ==> #[trigger] regions[a].char != #[trigger] regions[b].char,
                    forall|b: int| 0 <= b < j && b != i ==> regions[i as int].char != #[trigger] regions[b].char,
                decreases n - j,
            {
                if j != i && self.regions[i].char == self.regions[j].char {
                    assert(!markers_unique(regions)) by {
                        assert(regions[i as int].char == regions[j as int].char);
                    }
                    return false;
                }
                j = j + 1;
            }
            i = i + 1;
        }
        let w = longest(&rows);
        let mut k: usize = 0;
        while k < n
            invariant
                n == regions.len(),
                regions == self.regions@,
                t == template_rows(*self),
                w == rows_width(t),
                rows@.len() == t.len(),
                k <= n,
                forall|a: int|
                    0 <= a < k ==> (#[trigger] regions[a].temp_pos.1 as int) < t.len() && (
                    regions[a].temp_pos.0 as int) < rows_width(t),
            decreases n - k,
        {
            let pos = self.regions[k].temp_pos;
            if pos.1 as usize >= rows.len() || pos.0 as usize >= w {
                return false;
            }
            k = k + 1;
        }
        true
    }
}

} // verus!
