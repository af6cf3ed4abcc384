//! What the viewer shows and how it moves between screens: the data of one
//! fetch, the fetch itself, and the decisions of the event loop, as
//! functions from state and event to next state and action.
use vstd::prelude::*;
use vstd::string::*;
use crate::config::{Country, Region, REFRESH_INTERVAL_MS};
use crate::text::push_text;
use crate::wttr::{
    WeatherClient, WeatherReport, WeatherReports, get_weather_icon, icon_spec, lower_of,
};

verus! {

/// Everything one successful fetch produced.
#[derive(Debug)]
pub struct AppData {
    pub country: Country,
    pub reports: WeatherReports,
    /// Per reported region, in region order: "Name: description" and its icon.
    pub summaries: Vec<(String, &'static str)>,
    /// Description and icon of the first region.
    pub footer_text: (String, &'static str),
    /// Description and icon of the second region (the first if there is one).
    pub left_text: (String, &'static str),
}

/// The report has current conditions.
pub open spec fn has_conditions(r: WeatherReport) -> bool {
    r.current_condition@.len() > 0
}

/// The first description of the current conditions.
pub open spec fn first_desc(r: WeatherReport) -> Option<Seq<char>> {
    if r.current_condition@.len() > 0 && r.current_condition@[0].weatherDesc@.len() > 0 {
        Some(r.current_condition@[0].weatherDesc@[0].value@)
    } else {
        None
    }
}

/// The description shown in a region's summary.
pub open spec fn summary_desc(r: WeatherReport) -> Seq<char> {
    match first_desc(r) {
        Some(d) => d,
        None => "N/A"@,
    }
}

/// The reports of the first `n` regions that have current conditions, each
/// filed under its region's name; a later region of the same name replaces an
/// earlier one.
pub open spec fn fetched_reports(
    regions: Seq<Region>,
    fetched: Seq<WeatherReport>,
    n: int,
) -> Map<Seq<char>, WeatherReport>
    decreases n,
{
    if n <= 0 {
        Map::empty()
    } else {
        let m = fetched_reports(regions, fetched, n - 1);
        if has_conditions(fetched[n - 1]) {
            m.insert(regions[n - 1].name@, fetched[n - 1])
        } else {
            m
        }
    }
}

/// The summary lines of the first `n` regions that have current conditions.
pub open spec fn fetched_summaries(
    regions: Seq<Region>,
    fetched: Seq<WeatherReport>,
    n: int,
) -> Seq<(Seq<char>, Seq<char>)>
    decreases n,
{
    if n <= 0 {
        Seq::empty()
    } else {
        let s = fetched_summaries(regions, fetched, n - 1);
        if has_conditions(fetched[n - 1]) {
            let d = summary_desc(fetched[n - 1]);
            s.push((regions[n - 1].name@ + ": "@ + d, icon_spec(lower_of(d))))
        } else {
            s
        }
    }
}

/// The description of region `i`'s report, or `fallback`.
pub open spec fn headline(
    regions: Seq<Region>,
    reports: Map<Seq<char>, WeatherReport>,
    i: int,
    fallback: Seq<char>,
) -> Seq<char> {
    if 0 <= i < regions.len() && reports.contains_key(regions[i].name@) && first_desc(
        reports[regions[i].name@],
    ) is Some {
        first_desc(reports[regions[i].name@])->Some_0
    } else {
        fallback
    }
}

/// The region whose description goes beside the title: the second, or the
/// first when there is only one.
pub open spec fn left_region(regions: Seq<Region>) -> int {
    if regions.len() > 1 {
        1
    } else {
        0
    }
}

/// The summaries as text pairs.
pub open spec fn summaries_view(s: Seq<(String, &'static str)>) -> Seq<(Seq<char>, Seq<char>)> {
    s.map_values(|p: (String, &'static str)| (p.0@, p.1@))
}

/// `d` is what a fetch of `country` that returned `fetched`, region by region,
/// shows.
pub open spec fn assembled(country: Country, fetched: Seq<WeatherReport>, d: AppData) -> bool {
    let regions = country.regions@;
    let n = regions.len() as int;
    let reports = fetched_reports(regions, fetched, n);
    let footer = headline(regions, reports, 0, "Weather summary unavailable."@);
    let left = headline(regions, reports, left_region(regions), "No specific forecast."@);
    &&& d.country == country
    &&& d.reports@ == reports
    &&& summaries_view(d.summaries@) == fetched_summaries(regions, fetched, n)
    &&& d.footer_text.0@ == footer
    &&& d.footer_text.1@ == icon_spec(lower_of(footer))
    &&& d.left_text.0@ == left
    &&& d.left_text.1@ == icon_spec(lower_of(left))
}

/// The description of a region's report, or `fallback`.
fn headline_of(country: &Country, reports: &WeatherReports, i: usize, fallback: &str) -> (r: String)
    ensures
        r@ == headline(country.regions@, reports@, i as int, fallback@),
{
    if i < country.regions.len() {
        match reports.get(&country.regions[i].name) {
            Some(report) => {
                if report.current_condition.len() > 0
                    && report.current_condition[0].weatherDesc.len() > 0 {
                    return report.current_condition[0].weatherDesc[0].value.clone();
                }
            },
            None => {},
        }
    }
    String::from_str(fallback)
}

/// Puts together what a fetch of `country` shows, from the reports it
/// returned for each region in turn.
pub fn assemble(country: Country, fetched: Vec<WeatherReport>) -> (d: AppData)
    requires
        fetched@.len() == country.regions@.len(),
    ensures
        assembled(country, fetched@, d),
{
    let ghost all = fetched@;
    let ghost regions = country.regions@;
    let mut rest = fetched;
    let mut reports = WeatherReports::new();
    let mut summaries: Vec<(String, &'static str)> = Vec::new();
    let n = country.regions.len();
    let mut i: usize = 0;
    while i < n
        invariant
            n == regions.len(),
            regions == country.regions@,
            all.len() == n,
            i <= n,
            rest@ == all.subrange(i as int, n as int),
            reports@ == fetched_reports(regions, all, i as int),
            summaries_view(summaries@) == fetched_summaries(regions, all, i as int),
        decreases n - i,
    {
        let report = rest.remove(0);
        assert(report == all[i as int]);
        let ghost before = summaries@;
        if report.current_condition.len() > 0 {
            let desc = if report.current_condition[0].weatherDesc.len() > 0 {
                report.current_condition[0].weatherDesc[0].value.clone()
            } else {
                String::from_str("N/A")
            };
            let icon = get_weather_icon(desc.as_str());
            let mut line = country.regions[i].name.clone();
            push_text(&mut line, ": ");
            push_text(&mut line, desc.as_str());
            summaries.push((line, icon));
            assert(summaries_view(summaries@) =~= summaries_view(before).push((line@, icon@)));
            reports.insert(country.regions[i].name.clone(), report);
        }
        assert(rest@ =~= all.subrange(i + 1, n as int));
        i = i + 1;
    }
    let footer_desc = headline_of(&country, &reports, 0, "Weather summary unavailable.");
    let footer_icon = get_weather_icon(footer_desc.as_str());
    let li: usize = if n > 1 {
        1
    } else {
        0
    };
    let left_desc = headline_of(&country, &reports, li, "No specific forecast.");
    let left_icon = get_weather_icon(left_desc.as_str());
    AppData {
        country,
        reports,
        summaries,
        footer_text: (footer_desc, footer_icon),
        left_text: (left_desc, left_icon),
    }
}

/// One fetch result taken into a fetch under way: a report is kept after
/// those already fetched; an error ends the fetch and is handed on as it came.
pub fn fetch_step(
    fetched: Vec<WeatherReport>,
    result: Result<WeatherReport, String>,
) -> (r: Result<Vec<WeatherReport>, String>)
    ensures
        match result {
            Ok(report) => r is Ok && r->Ok_0@ == fetched@.push(report),
            Err(e) => r == Err::<Vec<WeatherReport>, String>(e),
        },
{
    match result {
        Ok(report) => {
            let mut more = fetched;
            more.push(report);
            Ok(more)
        },
        Err(e) => Err(e),
    }
}

/// Fetches the report of every region of `country`, in region order, and
/// puts together what they show. The first failure ends the fetch and is
/// returned as it came; nothing of a failed fetch is kept. A country without
/// regions needs no fetch and always succeeds.
pub fn fetch_all<C: WeatherClient>(client: &C, country: Country) -> (r: Result<AppData, String>)
    ensures
        r is Ok ==> exists|f: Seq<WeatherReport>|
            f.len() == country.regions@.len() && #[trigger] assembled(country, f, r->Ok_0),
        country.regions@.len() == 0 ==> r is Ok && assembled(country, Seq::empty(), r->Ok_0),
{
    let mut fetched: Vec<WeatherReport> = Vec::new();
    let mut i: usize = 0;
    while i < country.regions.len()
        invariant
            i <= country.regions@.len(),
            fetched@.len() == i,
        decreases country.regions@.len() - i,
    {
        let result = client.fetch(country.regions[i].city.as_str());
        match fetch_step(fetched, result) {
            Ok(more) => fetched = more,
            Err(e) => return Err(e),
        }
        i = i + 1;
    }
    let ghost f = fetched@;
    let ghost c = country;
    proof {
        if c.regions@.len() == 0 {
            assert(f =~= Seq::<WeatherReport>::empty());
        }
    }
    let d = assemble(country, fetched);
    assert(f.len() == c.regions@.len() && assembled(c, f, d));
    let r: Result<AppData, String> = Ok(d);
    assert(exists|g: Seq<WeatherReport>| g.len() == c.regions@.len() && #[trigger] assembled(c, g, r->Ok_0)) by {
        assert(assembled(c, f, r->Ok_0));
    }
    r
}

/// Time of day on the wall clock.
#[derive(Clone, Copy, Debug, PartialEq, Eq, Structural)]
pub struct ClockTime {
    pub hour: u8,
    pub minute: u8,
    pub second: u8,
}

/// Where the viewer is with its data.
pub enum AppState {
    /// A fetch is under way.
    Loading,
    /// The last fetch succeeded, at `updated_at` on the wall clock and at
    /// `last_fetch_ms` on the viewer's monotonic clock.
    Loaded { data: AppData, updated_at: ClockTime, last_fetch_ms: u64 },
    /// The last fetch failed with this message.
    Error(String),
}

/// Which screen is shown, with its scroll position.
pub enum ViewState {
    Main,
    Details { scroll: u16 },
    Hourly { region_index: usize, scroll: u16 },
    SelectCountry { available: Vec<String>, scroll: u16 },
}

/// A key press, as far as the viewer tells keys apart.
#[derive(Clone, Copy, Debug, PartialEq, Eq, Structural)]
pub enum Key {
    Char(char),
    Esc,
    Up,
    Down,
    Other,
}

/// What the event loop does after a key.
pub enum Command {
    /// Draw again.
    Continue,
    /// Leave the viewer.
    Quit,
    /// Start a new fetch and show the loading screen.
    Refetch,
    /// List the available countries, then open the country selector.
    ListCountries,
    /// Restart the viewer with this country.
    SwitchCountry(String),
}

/// The number of a digit key.
pub open spec fn digit_of(c: char) -> Option<int> {
    if '0' <= c && c <= '9' {
        Some(c as int - '0' as int)
    } else {
        None
    }
}

/// The key picks entry `d - 1` of a list of `n`: a digit key from 1 to `n`.
pub open spec fn picks(key: Key, n: int) -> Option<int> {
    match key {
        Key::Char(c) => match digit_of(c) {
            Some(d) => if 1 <= d <= n {
                Some(d - 1)
            } else {
                None
            },
            None => None,
        },
        _ => None,
    }
}

pub open spec fn is_quit(key: Key) -> bool {
    key == Key::Char('q') || key == Key::Esc
}

pub open spec fn scroll_up(s: u16) -> u16 {
    if s > 0 {
        (s - 1) as u16
    } else {
        0
    }
}

pub open spec fn scroll_down(s: u16) -> u16 {
    if s < u16::MAX {
        (s + 1) as u16
    } else {
        s
    }
}

/// The screen and action that follow a key press. Before data has arrived
/// only quitting, and retrying after an error, are possible.
pub open spec fn key_step(state: AppState, view: ViewState, key: Key) -> (ViewState, Command) {
    match state {
        AppState::Loading => if is_quit(key) {
            (view, Command::Quit)
        } else {
            (view, Command::Continue)
        },
        AppState::Error(_) => if is_quit(key) {
            (view, Command::Quit)
        } else if key == Key::Char('r') {
            (view, Command::Refetch)
        } else {
            (view, Command::Continue)
        },
        AppState::Loaded { data, .. } => match view {
            ViewState::Main => if is_quit(key) {
                (view, Command::Quit)
            } else if key == Key::Char('d') {
                (ViewState::Details { scroll: 0 }, Command::Continue)
            } else if key == Key::Char('c') {
                (view, Command::ListCountries)
            } else if key == Key::Char('r') {
                (view, Command::Refetch)
            } else {
                (view, Command::Continue)
            },
            ViewState::Details { scroll } => if key == Key::Char('m') || key == Key::Esc {
                (ViewState::Main, Command::Continue)
            } else if key == Key::Up {
                (ViewState::Details { scroll: scroll_up(scroll) }, Command::Continue)
            } else if key == Key::Down {
                (ViewState::Details { scroll: scroll_down(scroll) }, Command::Continue)
            } else if picks(key, data.country.regions@.len() as int) is Some {
                (
                    ViewState::Hourly {
                        region_index: picks(key, data.country.regions@.len() as int)->Some_0 as usize,
                        scroll: 0,
                    },
                    Command::Continue,
                )
            } else {
                (view, Command::Continue)
            },
            ViewState::Hourly { region_index, scroll } => if key == Key::Char('d') || key
                == Key::Esc {
                (ViewState::Details { scroll: 0 }, Command::Continue)
            } else if key == Key::Up {
                (ViewState::Hourly { region_index, scroll: scroll_up(scroll) }, Command::Continue)
            } else if key == Key::Down {
                (ViewState::Hourly { region_index, scroll: scroll_down(scroll) }, Command::Continue)
            } else {
                (view, Command::Continue)
            },
            ViewState::SelectCountry { available, scroll } => if key == Key::Char('m') || key
                == Key::Esc {
                (ViewState::Main, Command::Continue)
            } else if key == Key::Up {
                (ViewState::SelectCountry { available, scroll: scroll_up(scroll) }, Command::Continue)
            } else if key == Key::Down {
                (
                    ViewState::SelectCountry { available, scroll: scroll_down(scroll) },
                    Command::Continue,
                )
            } else if picks(key, available@.len() as int) is Some {
                (
                    view,
                    Command::SwitchCountry(available@[picks(key, available@.len() as int)->Some_0]),
                )
            } else {
                (view, Command::Continue)
            },
        },
    }
}

/// The number of a digit key.
fn digit_key(key: Key) -> (d: Option<u32>)
    ensures
        match key {
            Key::Char(c) => match digit_of(c) {
                Some(v) => d == Some(v as u32),
                None => d is None,
            },
            _ => d is None,
        },
{
    match key {
        Key::Char(c) => if '0' <= c && c <= '9' {
            Some(c as u32 - '0' as u32)
        } else {
            None
        },
        _ => None,
    }
}

/// The entry of a list of `n` that a key picks.
fn pick(key: Key, n: usize) -> (r: Option<usize>)
    ensures
        match picks(key, n as int) {
            Some(i) => r == Some(i as usize),
            None => r is None,
        },
{
    match digit_key(key) {
        Some(d) => if 1 <= d && d as usize <= n {
            Some(d as usize - 1)
        } else {
            None
        },
        None => None,
    }
}

fn up(s: u16) -> (r: u16)
    ensures
        r == scroll_up(s),
{
    if s > 0 {
        s - 1
    } else {
        0
    }
}

fn down(s: u16) -> (r: u16)
    ensures
        r == scroll_down(s),
{
    if s < u16::MAX {
        s + 1
    } else {
        s
    }
}

/// Decides what a key press does: the next screen, and what the event loop
/// must do (quit, fetch again, list the countries, switch country, or just
/// draw again).
pub fn handle_key(state: &AppState, view: ViewState, key: Key) -> (r: (ViewState, Command))
    ensures
        r == key_step(*state, view, key),
{
    let quit = key == Key::Char('q') || key == Key::Esc;
    match state {
        AppState::Loading => if quit {
            (view, Command::Quit)
        } else {
            (view, Command::Continue)
        },
        AppState::Error(_) => if quit {
            (view, Command::Quit)
        } else if key == Key::Char('r') {
            (view, Command::Refetch)
        } else {
            (view, Command::Continue)
        },
        AppState::Loaded { data, .. } => match view {
            ViewState::Main => if quit {
                (view, Command::Quit)
            } else if key == Key::Char('d') {
                (ViewState::Details { scroll: 0 }, Command::Continue)
            } else if key == Key::Char('c') {
                (view, Command::ListCountries)
            } else if key == Key::Char('r') {
                (view, Command::Refetch)
            } else {
                (view, Command::Continue)
            },
            ViewState::Details { scroll } => if key == Key::Char('m') || key == Key::Esc {
                (ViewState::Main, Command::Continue)
            } else if key == Key::Up {
                (ViewState::Details { scroll: up(scroll) }, Command::Continue)
            } else if key == Key::Down {
                (ViewState::Details { scroll: down(scroll) }, Command::Continue)
            } else {
                match pick(key, data.country.regions.len()) {
                    Some(i) => (ViewState::Hourly { region_index: i, scroll: 0 }, Command::Continue),
                    None => (view, Command::Continue),
                }
            },
            ViewState::Hourly { region_index, scroll } => if key == Key::Char('d') || key
                == Key::Esc {
                (ViewState::Details { scroll: 0 }, Command::Continue)
            } else if key == Key::Up {
                (ViewState::Hourly { region_index, scroll: up(scroll) }, Command::Continue)
            } else if key == Key::Down {
                (ViewState::Hourly { region_index, scroll: down(scroll) }, Command::Continue)
            } else {
                (view, Command::Continue)
            },
            ViewState::SelectCountry { available, scroll } => if key == Key::Char('m') || key
                == Key::Esc {
                (ViewState::Main, Command::Continue)
            } else if key == Key::Up {
                (ViewState::SelectCountry { available, scroll: up(scroll) }, Command::Continue)
            } else if key == Key::Down {
                (ViewState::SelectCountry { available, scroll: down(scroll) }, Command::Continue)
            } else {
                match pick(key, available.len()) {
                    Some(i) => {
                        let name = available[i].clone();
                        (ViewState::SelectCountry { available, scroll }, Command::SwitchCountry(name))
                    },
                    None => (ViewState::SelectCountry { available, scroll }, Command::Continue),
                }
            },
        },
    }
}

/// The screen after the countries were listed: the selector, from the top,
/// when listing succeeded; the screen as it was otherwise.
pub fn countries_listed(view: ViewState, available: Option<Vec<String>>) -> (r: ViewState)
    ensures
        match available {
            Some(a) => r == (ViewState::SelectCountry { available: a, scroll: 0 }),
            None => r == view,
        },
{
    match available {
        Some(a) => ViewState::SelectCountry { available: a, scroll: 0 },
        None => view,
    }
}

/// Milliseconds from `from` to `now` on the monotonic clock; 0 if `now` is
/// earlier.
pub open spec fn elapsed_ms(from: u64, now: u64) -> int {
    if now >= from {
        now - from
    } else {
        0
    }
}

/// The state once a fetch result (if any) is taken in: only a state that
/// waits for one takes it.
pub open spec fn received_step(
    state: AppState,
    received: Option<Result<AppData, String>>,
    clock: ClockTime,
    now_ms: u64,
) -> AppState {
    match (state, received) {
        (AppState::Loading, Some(Ok(data))) => AppState::Loaded {
            data,
            updated_at: clock,
            last_fetch_ms: now_ms,
        },
        (AppState::Loading, Some(Err(e))) => AppState::Error(e),
        _ => state,
    }
}

/// A loaded state is stale once more than the refresh interval has passed
/// since its fetch.
pub open spec fn is_stale(state: AppState, now_ms: u64) -> bool {
    match state {
        AppState::Loaded { last_fetch_ms, .. } => elapsed_ms(last_fetch_ms, now_ms)
            > REFRESH_INTERVAL_MS,
        _ => false,
    }
}

/// The end of one turn of the event loop, before the next draw: takes in the
/// fetch result that arrived, if any, then starts a new fetch (and shows the
/// loading screen) when the data has grown stale. The flag says whether a
/// fetch must be started.
pub fn after_events(
    state: AppState,
    received: Option<Result<AppData, String>>,
    clock: ClockTime,
    now_ms: u64,
) -> (r: (AppState, bool))
    ensures
        is_stale(received_step(state, received, clock, now_ms), now_ms) ==> r == (
        AppState::Loading,
        true,
        ),
        !is_stale(received_step(state, received, clock, now_ms), now_ms) ==> r == (
        received_step(state, received, clock, now_ms),
        false,
        ),
{
    let next = match state {
        AppState::Loading => match received {
            Some(Ok(data)) => AppState::Loaded { data, updated_at: clock, last_fetch_ms: now_ms },
            Some(Err(e)) => AppState::Error(e),
            None => AppState::Loading,
        },
        other => other,
    };
    let stale = match &next {
        AppState::Loaded { last_fetch_ms, .. } => {
            let elapsed = if now_ms >= *last_fetch_ms {
                now_ms - *last_fetch_ms
            } else {
                0
            };
            elapsed > REFRESH_INTERVAL_MS
        },
        _ => false,
    };
    if stale {
        (AppState::Loading, true)
    } else {
        (next, false)
    }
}

/// The page number shown while loading: it counts from 100 up to 899, then
/// starts again at 100.
pub fn next_counter(counter: u16) -> (r: u16)
    requires
        99 <= counter < 65535,
    ensures
        r == 100 + (counter + 1 - 100) % 800,
        100 <= r < 900,
{
    100 + (counter + 1 - 100) % 800
}

} // verus!
