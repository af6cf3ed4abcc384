//! The text of the screens around the map: header spacing, summary and
//! footer lines, the details list, the hourly forecast and the country list.
use vstd::prelude::*;
use vstd::string::*;
use crate::app::{AppData, ClockTime, has_conditions};
use crate::config::Region;
use crate::text::{decimal, parse_int, parse_int_spec, push_decimal, push_text, push_two_wide, two_wide};
use crate::wttr::{CurrentCondition, Hourly, WeatherReport, get_weather_icon, icon_spec, lower_of};

verus! {

/// Blank columns between the header's left text and its date and time
/// (which are three columns apart) so that the time ends at the right edge;
/// none when they do not fit.
pub open spec fn header_padding_spec(width: int, left: int, date: int, time: int) -> int {
    let used = left + date + time + 3;
    if width > used {
        width - used
    } else {
        0
    }
}

/// Blank columns between the header's left text and its date and time.
pub fn header_padding(width: u16, left_len: usize, date_len: usize, time_len: usize) -> (r: usize)
    ensures
        r == header_padding_spec(width as int, left_len as int, date_len as int, time_len as int),
{
    let mut rest: usize = width as usize;
    if rest <= left_len {
        return 0;
    }
    rest = rest - left_len;
    if rest <= date_len {
        return 0;
    }
    rest = rest - date_len;
    if rest <= time_len {
        return 0;
    }
    rest = rest - time_len;
    if rest <= 3 {
        return 0;
    }
    rest - 3
}

/// The loading header: the page number, then "SEARCHING...".
pub fn loading_title(counter: u16) -> (s: String)
    ensures
        s@ == "P"@ + decimal(counter as nat) + " SEARCHING..."@,
{
    let mut s = String::from_str("P");
    push_decimal(&mut s, counter as u64);
    push_text(&mut s, " SEARCHING...");
    s
}

/// An icon, a space, and a description.
pub fn icon_line(icon: &str, desc: &str) -> (s: String)
    ensures
        s@ == icon@ + " "@ + desc@,
{
    let mut s = String::from_str(icon);
    push_text(&mut s, " ");
    push_text(&mut s, desc);
    s
}

/// A time of day as HH:MM:SS.
pub open spec fn clock_text(t: ClockTime) -> Seq<char> {
    two_wide(t.hour as int) + ":"@ + two_wide(t.minute as int) + ":"@ + two_wide(t.second as int)
}

/// A time of day as HH:MM:SS.
pub fn clock_label(t: ClockTime) -> (s: String)
    ensures
        s@ == clock_text(t),
{
    let mut s = String::new();
    push_two_wide(&mut s, t.hour as i32);
    push_text(&mut s, ":");
    push_two_wide(&mut s, t.minute as i32);
    push_text(&mut s, ":");
    push_two_wide(&mut s, t.second as i32);
    s
}

/// The main screen's footer: key bindings, when the data was fetched, and the
/// first region's weather.
pub fn footer_line(updated_at: ClockTime, icon: &str, desc: &str) -> (s: String)
    ensures
        s@ == "[C]ountry [D]etails [R]efresh      Updated: "@ + clock_text(updated_at) + "      "@
            + icon@ + " "@ + desc@,
{
    let mut s = String::from_str("[C]ountry [D]etails [R]efresh      Updated: ");
    let clock = clock_label(updated_at);
    push_text(&mut s, clock.as_str());
    push_text(&mut s, "      ");
    push_text(&mut s, icon);
    push_text(&mut s, " ");
    push_text(&mut s, desc);
    s
}

/// "n. name": an entry of a numbered list, counted from 1.
pub open spec fn numbered(i: int, name: Seq<char>) -> Seq<char> {
    decimal((i + 1) as nat) + ". "@ + name
}

/// The lines of the country selector: a title, then the countries numbered
/// from 1.
pub open spec fn country_list_spec(available: Seq<Seq<char>>) -> Seq<Seq<char>> {
    seq![""@, "Select Country:"@, ""@] + Seq::new(
        available.len(),
        |i: int| numbered(i, available[i]),
    )
}

/// The lines of the country selector.
pub fn country_list_lines(available: &Vec<String>) -> (lines: Vec<String>)
    ensures
        lines@.map_values(|l: String| l@) == country_list_spec(
            available@.map_values(|a: String| a@),
        ),
{
    let ghost names = available@.map_values(|a: String| a@);
    let mut lines: Vec<String> = Vec::new();
    lines.push(String::from_str(""));
    lines.push(String::from_str("Select Country:"));
    lines.push(String::from_str(""));
    let mut i: usize = 0;
    while i < available.len()
        invariant
            names == available@.map_values(|a: String| a@),
            i <= available@.len(),
            lines@.len() == i + 3,
            lines@[0]@ == ""@,
            lines@[1]@ == "Select Country:"@,
            lines@[2]@ == ""@,
            forall|j: int| 0 <= j < i ==> #[trigger] lines@[j + 3]@ == numbered(j, names[j]),
        decreases available@.len() - i,
    {
        let mut line = String::new();
        push_decimal(&mut line, i as u64 + 1);
        push_text(&mut line, ". ");
        push_text(&mut line, available[i].as_str());
        assert(line@ =~= numbered(i as int, names[i as int]));
        lines.push(line);
        i = i + 1;
    }
    let ghost want = country_list_spec(names);
    let ghost lv = lines@.map_values(|l: String| l@);
    assert forall|j: int| 0 <= j < want.len() implies #[trigger] lv[j] == want[j] by {
        if j >= 3 {
            assert(lines@[(j - 3) + 3]@ == numbered(j - 3, names[j - 3]));
        }
    }
    assert(lv =~= want);
    lines
}

/// The hour of an HHMM time: the number divided by 100, toward zero.
pub open spec fn hour_of(t: int) -> int {
    if t >= 0 {
        t / 100
    } else {
        -((-t) / 100)
    }
}

/// The description of an hourly sample.
pub open spec fn sample_desc(h: Hourly) -> Seq<char> {
    if h.weatherDesc@.len() > 0 {
        h.weatherDesc@[0].value@
    } else {
        "N/A"@
    }
}

/// One row of the hourly forecast: "  HH:00 - T°C - icon description", the
/// hour read from the sample's time as an integer.
pub open spec fn hourly_row(h: Hourly) -> Seq<char> {
    let d = sample_desc(h);
    "  "@ + two_wide(hour_of(parse_int_spec(h.time@))) + ":00 - "@ + h.tempC@ + "°C - "@
        + icon_spec(lower_of(d)) + " "@ + d
}

/// The rows of the hourly forecast of a region: a blank line, then one row
/// per sample of the first day of its report, if it has one.
pub open spec fn hourly_spec(regions: Seq<Region>, reports: Map<Seq<char>, WeatherReport>, i: int) -> Seq<Seq<char>> {
    let name = regions[i].name@;
    if reports.contains_key(name) && reports[name].weather@.len() > 0 {
        let day = reports[name].weather@[0].hourly@;
        seq![""@] + Seq::new(day.len(), |k: int| hourly_row(day[k]))
    } else {
        seq![""@]
    }
}

/// One row of the hourly forecast.
fn hourly_row_text(h: &Hourly) -> (s: String)
    ensures
        s@ == hourly_row(*h),
{
    let desc: &str = if h.weatherDesc.len() > 0 {
        h.weatherDesc[0].value.as_str()
    } else {
        "N/A"
    };
    let t = parse_int(h.time.as_str()) as i64;
    let hour: i64 = if t >= 0 {
        t / 100
    } else {
        -((-t) / 100)
    };
    let icon = get_weather_icon(desc);
    let mut s = String::from_str("  ");
    push_two_wide(&mut s, hour as i32);
    push_text(&mut s, ":00 - ");
    push_text(&mut s, h.tempC.as_str());
    push_text(&mut s, "°C - ");
    push_text(&mut s, icon);
    push_text(&mut s, " ");
    push_text(&mut s, desc);
    s
}

/// The rows of the hourly forecast of region `region_index`.
pub fn hourly_lines(data: &AppData, region_index: usize) -> (lines: Vec<String>)
    requires
        region_index < data.country.regions@.len(),
    ensures
        lines@.map_values(|l: String| l@) == hourly_spec(
            data.country.regions@,
            data.reports@,
            region_index as int,
        ),
{
    let ghost want = hourly_spec(data.country.regions@, data.reports@, region_index as int);
    let mut lines: Vec<String> = Vec::new();
    lines.push(String::from_str(""));
    match data.reports.get(&data.country.regions[region_index].name) {
        Some(report) => {
            if report.weather.len() > 0 {
                let day = &report.weather[0].hourly;
                let mut k: usize = 0;
                while k < day.len()
                    invariant
                        want == seq![""@] + Seq::new(day@.len(), |m: int| hourly_row(day@[m])),
                        k <= day@.len(),
                        lines@.len() == k + 1,
                        lines@[0]@ == ""@,
                        forall|m: int| 0 <= m < k ==> #[trigger] lines@[m + 1]@ == hourly_row(day@[m]),
                    decreases day@.len() - k,
                {
                    lines.push(hourly_row_text(&day[k]));
                    k = k + 1;
                }
                let ghost lv = lines@.map_values(|l: String| l@);
                assert forall|j: int| 0 <= j < want.len() implies #[trigger] lv[j] == want[j] by {
                    if j >= 1 {
                        assert(lines@[(j - 1) + 1]@ == hourly_row(day@[j - 1]));
                    }
                }
                assert(lv =~= want);
            }
        },
        None => {},
    }
    assert(lines@.map_values(|l: String| l@) =~= want);
    lines
}

/// A line of text and whether it is a heading.
pub struct TextLine {
    pub text: String,
    pub heading: bool,
}

/// The block of the details screen for region `i` (counted from 0): a
/// heading, the description with its icon, then feels-like temperature, wind
/// and precipitation, and a blank line.
pub open spec fn detail_block(i: int, name: Seq<char>, c: CurrentCondition) -> Seq<(Seq<char>, bool)> {
    let d = if c.weatherDesc@.len() > 0 {
        c.weatherDesc@[0].value@
    } else {
        "N/A"@
    };
    seq![
        (decimal((i + 1) as nat) + ". -- "@ + name + " --"@, true),
        ("   "@ + icon_spec(lower_of(d)) + " "@ + d, false),
        ("   Feels Like: "@ + c.FeelsLikeC@ + "°C"@, false),
        ("   Wind: "@ + c.winddir16Point@ + " "@ + c.windspeedKmph@ + " km/h"@, false),
        ("   Precip: "@ + c.precipMM@ + " mm"@, false),
        (" "@, false),
    ]
}

/// The details screen for the first `n` regions: a block for each one whose
/// report has current conditions.
pub open spec fn details_spec(
    regions: Seq<Region>,
    reports: Map<Seq<char>, WeatherReport>,
    n: int,
) -> Seq<(Seq<char>, bool)>
    decreases n,
{
    if n <= 0 {
        Seq::empty()
    } else {
        let before = details_spec(regions, reports, n - 1);
        let name = regions[n - 1].name@;
        if reports.contains_key(name) && has_conditions(reports[name]) {
            before + detail_block(n - 1, name, reports[name].current_condition@[0])
        } else {
            before
        }
    }
}

/// The lines as text and heading flag.
pub open spec fn lines_view(v: Seq<TextLine>) -> Seq<(Seq<char>, bool)> {
    v.map_values(|l: TextLine| (l.text@, l.heading))
}

fn push_line(lines: &mut Vec<TextLine>, text: String, heading: bool)
    ensures
        lines_view(final(lines)@) == lines_view(old(lines)@).push((text@, heading)),
{
    lines.push(TextLine { text, heading });
    assert(lines_view(lines@) =~= lines_view(old(lines)@).push((text@, heading)));
}

/// The lines of the details screen.
pub fn details_lines(data: &AppData) -> (lines: Vec<TextLine>)
    ensures
        lines_view(lines@) == details_spec(
            data.country.regions@,
            data.reports@,
            data.country.regions@.len() as int,
        ),
{
    let ghost regions = data.country.regions@;
    let n = data.country.regions.len();
    let mut lines: Vec<TextLine> = Vec::new();
    let mut i: usize = 0;
    assert(lines_view(lines@) =~= Seq::<(Seq<char>, bool)>::empty());
    while i < n
        invariant
            regions == data.country.regions@,
            n == regions.len(),
            i <= n,
            lines_view(lines@) == details_spec(regions, data.reports@, i as int),
        decreases n - i,
    {
        let region = &data.country.regions[i];
        match data.reports.get(&region.name) {
            Some(report) => {
                if report.current_condition.len() > 0 {
                    let ghost before = lines_view(lines@);
                    let c = &report.current_condition[0];
                    let desc: &str = if c.weatherDesc.len() > 0 {
                        c.weatherDesc[0].value.as_str()
                    } else {
                        "N/A"
                    };
                    let mut title = String::new();
                    push_decimal(&mut title, i as u64 + 1);
                    push_text(&mut title, ". -- ");
                    push_text(&mut title, region.name.as_str());
                    push_text(&mut title, " --");
                    push_line(&mut lines, title, true);
                    let mut l2 = String::from_str("   ");
                    push_text(&mut l2, get_weather_icon(desc));
                    push_text(&mut l2, " ");
                    push_text(&mut l2, desc);
                    push_line(&mut lines, l2, false);
                    let mut l3 = String::from_str("   Feels Like: ");
                    push_text(&mut l3, c.FeelsLikeC.as_str());
                    push_text(&mut l3, "°C");
                    push_line(&mut lines, l3, false);
                    let mut l4 = String::from_str("   Wind: ");
                    push_text(&mut l4, c.winddir16Point.as_str());
                    push_text(&mut l4, " ");
                    push_text(&mut l4, c.windspeedKmph.as_str());
                    push_text(&mut l4, " km/h");
                    push_line(&mut lines, l4, false);
                    let mut l5 = String::from_str("   Precip: ");
                    push_text(&mut l5, c.precipMM.as_str());
                    push_text(&mut l5, " mm");
                    push_line(&mut lines, l5, false);
                    push_line(&mut lines, String::from_str(" "), false);
                    assert(lines_view(lines@) =~= before + detail_block(
                        i as int,
                        region.name@,
                        *c,
                    ));
                }
            },
            None => {},
        }
        i = i + 1;
    }
    lines
}

} // verus!
