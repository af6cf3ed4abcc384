//! Weather reports as the weather service sends them, the set of reports of
//! one fetch, the provider capability, and the icon of a description.
use vstd::prelude::*;
use vstd::string::*;
use crate::text::{contains_str, push_text, contains_seq};
pub use crate::palette::get_temp_color;

verus! {

#[derive(Clone, Debug)]
pub struct WeatherDesc {
    pub value: String,
}

/// One sample of the hourly forecast.
#[allow(non_snake_case)]
#[derive(Clone, Debug)]
pub struct Hourly {
    /// Hour and minute as one number, HHMM without a separator ("0", "300", "1500").
    pub time: String,
    pub tempC: String,
    pub weatherDesc: Vec<WeatherDesc>,
}

/// Current conditions; numbers arrive as decimal strings.
#[allow(non_snake_case)]
#[derive(Clone, Debug)]
pub struct CurrentCondition {
    pub temp_C: String,
    pub FeelsLikeC: String,
    pub windspeedKmph: String,
    pub winddir16Point: String,
    pub precipMM: String,
    pub weatherDesc: Vec<WeatherDesc>,
}

#[derive(Clone, Debug)]
pub struct WeatherDay {
    pub hourly: Vec<Hourly>,
}

/// The report for one city.
#[derive(Clone, Debug)]
pub struct WeatherReport {
    pub current_condition: Vec<CurrentCondition>,
    pub weather: Vec<WeatherDay>,
}

/// The temperature text of a report's current conditions, if it has any.
pub open spec fn current_temp(r: WeatherReport) -> Option<Seq<char>> {
    if r.current_condition@.len() > 0 {
        Some(r.current_condition@[0].temp_C@)
    } else {
        None
    }
}

/// A provider of weather reports. It may block, and may be shared between
/// threads; the error is a message for the user.
pub trait WeatherClient: Send + Sync {
    fn fetch(&self, city: &str) -> Result<WeatherReport, String>;
}

/// The address that serves the report of `city` as JSON.
pub open spec fn weather_url_spec(city: Seq<char>) -> Seq<char> {
    "https://wttr.in/"@ + city + "?format=j1"@
}

/// The address that serves the report of `city` as JSON.
pub fn weather_url(city: &str) -> (u: String)
    ensures
        u@ == weather_url_spec(city@),
{
    let mut u = String::from_str("https://wttr.in/");
    push_text(&mut u, city);
    push_text(&mut u, "?format=j1");
    u
}

/// The message of a report that could not be decoded: the decoder's error,
/// then the payload.
pub open spec fn decode_failure_spec(error: Seq<char>, payload: Seq<char>) -> Seq<char> {
    "Failed to decode API response: "@ + error + "\n\n-- API Payload --\n"@ + payload
}

/// The message of a report that could not be decoded: the decoder's error,
/// then the payload (pretty-printed where it is JSON).
pub fn decode_failure_message(error: &str, payload: &str) -> (m: String)
    ensures
        m@ == decode_failure_spec(error@, payload@),
{
    let mut m = String::from_str("Failed to decode API response: ");
    push_text(&mut m, error);
    push_text(&mut m, "\n\n-- API Payload --\n");
    push_text(&mut m, payload);
    m
}

/// The reports of one fetch, keyed by region name. The first entry with a
/// given name is the one that counts; `insert` keeps names unique anyway.
#[derive(Clone, Debug)]
pub struct WeatherReports {
    entries: Vec<(String, WeatherReport)>,
}

/// Entry `i` is the first one named `k`.
pub open spec fn is_first_key(s: Seq<(String, WeatherReport)>, k: Seq<char>, i: int) -> bool {
    &&& 0 <= i < s.len()
    &&& s[i].0@ == k
    &&& forall|j: int| 0 <= j < i ==> s[j].0@ != k
}

/// The map that a list of entries stands for.
pub closed spec fn entries_view(s: Seq<(String, WeatherReport)>) -> Map<Seq<char>, WeatherReport> {
    Map::new(
        |k: Seq<char>| exists|i: int| is_first_key(s, k, i),
        |k: Seq<char>| s[choose|i: int| is_first_key(s, k, i)].1,
    )
}

impl View for WeatherReports {
    type V = Map<Seq<char>, WeatherReport>;

    closed spec fn view(&self) -> Map<Seq<char>, WeatherReport> {
        entries_view(self.entries@)
    }
}

proof fn lemma_first_key_unique(s: Seq<(String, WeatherReport)>, k: Seq<char>, i: int, j: int)
    requires
        is_first_key(s, k, i),
        is_first_key(s, k, j),
    ensures
        i == j,
{
    if i < j {
        assert(s[i].0@ != k);
    } else if j < i {
        assert(s[j].0@ != k);
    }
}

proof fn lemma_view_at(s: Seq<(String, WeatherReport)>, k: Seq<char>, i: int)
    requires
        is_first_key(s, k, i),
    ensures
        entries_view(s).contains_key(k),
        entries_view(s)[k] == s[i].1,
{
    let c = choose|m: int| is_first_key(s, k, m);
    lemma_first_key_unique(s, k, i, c);
}

proof fn lemma_view_absent(s: Seq<(String, WeatherReport)>, k: Seq<char>)
    requires
        forall|j: int| 0 <= j < s.len() ==> s[j].0@ != k,
    ensures
        !entries_view(s).contains_key(k),
{
}

/// Entries with the same names, in the same order, differing only in the
/// report at `i`: the map differs only there.
proof fn lemma_view_replace(
    before: Seq<(String, WeatherReport)>,
    after: Seq<(String, WeatherReport)>,
    k: Seq<char>,
    i: int,
)
    requires
        is_first_key(before, k, i),
        after.len() == before.len(),
        after[i].0@ == k,
        forall|j: int| 0 <= j < before.len() && j != i ==> after[j] == before[j],
    ensures
        entries_view(after) == entries_view(before).insert(k, after[i].1),
{
    let target = entries_view(before).insert(k, after[i].1);
    assert forall|j: int| 0 <= j < before.len() implies #[trigger] after[j].0@ == before[j].0@ by {}
    assert forall|k2: Seq<char>, m: int| is_first_key(after, k2, m) <==> is_first_key(before, k2, m) by {
        if 0 <= m < before.len() {
            assert(after[m].0@ == before[m].0@);
        }
    }
    assert forall|k2: Seq<char>| #[trigger] entries_view(after).contains_key(k2) == target.contains_key(k2) by {
        if entries_view(before).contains_key(k2) {
            let m = choose|m: int| is_first_key(before, k2, m);
            assert(is_first_key(after, k2, m));
        }
        if entries_view(after).contains_key(k2) {
            let m = choose|m: int| is_first_key(after, k2, m);
            assert(is_first_key(before, k2, m));
        }
    }
    assert forall|k2: Seq<char>| entries_view(after).contains_key(k2) implies #[trigger] entries_view(after)[k2] == target[k2] by {
        let m = choose|m: int| is_first_key(after, k2, m);
        assert(is_first_key(before, k2, m));
        lemma_view_at(after, k2, m);
        lemma_view_at(before, k2, m);
        if k2 != k {
            assert(m != i);
        } else {
            lemma_first_key_unique(before, k, i, m);
        }
    }
    assert(entries_view(after) =~= target);
}

/// A new name added at the end: the map gains that name.
proof fn lemma_view_push(
    before: Seq<(String, WeatherReport)>,
    e: (String, WeatherReport),
)
    requires
        forall|j: int| 0 <= j < before.len() ==> before[j].0@ != e.0@,
    ensures
        entries_view(before.push(e)) == entries_view(before).insert(e.0@, e.1),
{
    let after = before.push(e);
    let k = e.0@;
    let n = before.len() as int;
    let target = entries_view(before).insert(k, e.1);
    assert(is_first_key(after, k, n));
    assert forall|k2: Seq<char>, m: int| k2 != k implies (is_first_key(after, k2, m) <==> is_first_key(before, k2, m)) by {
        if is_first_key(after, k2, m) {
            assert(m < n);
            assert forall|j: int| 0 <= j < m implies before[j].0@ != k2 by {
                assert(after[j] == before[j]);
            }
        }
        if is_first_key(before, k2, m) {
            assert forall|j: int| 0 <= j < m implies after[j].0@ != k2 by {
                assert(after[j] == before[j]);
            }
            assert(after[m] == before[m]);
        }
    }
    assert forall|k2: Seq<char>| #[trigger] entries_view(after).contains_key(k2) == target.contains_key(k2) by {
        if k2 != k {
            if entries_view(before).contains_key(k2) {
                let m = choose|m: int| is_first_key(before, k2, m);
                assert(is_first_key(after, k2, m));
            }
            if entries_view(after).contains_key(k2) {
                let m = choose|m: int| is_first_key(after, k2, m);
                assert(is_first_key(before, k2, m));
            }
        }
    }
    assert forall|k2: Seq<char>| entries_view(after).contains_key(k2) implies #[trigger] entries_view(after)[k2] == target[k2] by {
        if k2 != k {
            let m = choose|m: int| is_first_key(after, k2, m);
            assert(is_first_key(before, k2, m));
            lemma_view_at(after, k2, m);
            lemma_view_at(before, k2, m);
        } else {
            lemma_view_at(after, k, n);
        }
    }
    assert(entries_view(after) =~= target);
}

impl WeatherReports {
    /// No reports.
    pub fn new() -> (r: WeatherReports)
        ensures
            r@ == Map::<Seq<char>, WeatherReport>::empty(),
    {
        let r = WeatherReports { entries: Vec::new() };
        assert(r@ =~= Map::<Seq<char>, WeatherReport>::empty());
        r
    }

    /// The report of the region named `name`, if there is one.
    pub fn get(&self, name: &String) -> (r: Option<&WeatherReport>)
        ensures
            match r {
                Some(v) => self@.contains_key(name@) && *v == self@[name@],
                None => !self@.contains_key(name@),
            },
    {
        let mut i: usize = 0;
        while i < self.entries.len()
            invariant
                i <= self.entries@.len(),
                forall|j: int| 0 <= j < i ==> self.entries@[j].0@ != name@,
            decreases self.entries@.len() - i,
        {
            if self.entries[i].0 == *name {
                proof {
                    lemma_view_at(self.entries@, name@, i as int);
                }
                return Some(&self.entries[i].1);
            }
            i = i + 1;
        }
        proof {
            lemma_view_absent(self.entries@, name@);
        }
        None
    }

    /// Files `report` under `name`, in place of any report already there.
    pub fn insert(&mut self, name: String, report: WeatherReport)
        ensures
            final(self)@ == old(self)@.insert(name@, report),
    {
        let ghost k = name@;
        let ghost before = self.entries@;
        let mut i: usize = 0;
        while i < self.entries.len()
            invariant
                self.entries@ == before,
                old(self).entries@ == before,
                k == name@,
                i <= before.len(),
                forall|j: int| 0 <= j < i ==> before[j].0@ != k,
            decreases before.len() - i,
        {
            if self.entries[i].0 == name {
                self.entries.set(i, (name, report));
                proof {
                    lemma_view_replace(before, self.entries@, k, i as int);
                }
                return;
            }
            i = i + 1;
        }
        self.entries.push((name, report));
        proof {
            lemma_view_push(before, (name, report));
        }
    }
}

/// Name for what `str::to_lowercase` returns on a text.
pub uninterp spec fn lower_of(s: Seq<char>) -> Seq<char>;

/// Relies on `str::to_lowercase`: the lower-case form of a text depends on
/// its characters alone.
#[verifier::external_body]
fn lowercase(s: &str) -> (r: String)
    ensures
        r@ == lower_of(s@),
{
    s.to_lowercase()
}

/// The icon of an already lower-cased description: the first of these
/// words that it contains decides.
pub open spec fn icon_spec(d: Seq<char>) -> Seq<char> {
    if contains_seq(d, "sunny"@) {
        "☀"@
    } else if contains_seq(d, "clear"@) {
        "🌙"@
    } else if contains_seq(d, "partly cloudy"@) {
        "⛅"@
    } else if contains_seq(d, "cloudy"@) {
        "☁"@
    } else if contains_seq(d, "overcast"@) {
        "🌥"@
    } else if contains_seq(d, "mist"@) || contains_seq(d, "fog"@) {
        "🌫"@
    } else if contains_seq(d, "drizzle"@) || contains_seq(d, "light rain"@) {
        "🌦"@
    } else if contains_seq(d, "rain"@) || contains_seq(d, "shower"@) {
        "🌧"@
    } else if contains_seq(d, "sleet"@) {
        "🌨"@
    } else if contains_seq(d, "snow"@) {
        "❄"@
    } else if contains_seq(d, "thunder"@) {
        "🌩"@
    } else {
        "?"@
    }
}

/// The icon of a description that is already in lower case.
pub fn icon_for_lowercase(d: &str) -> (icon: &'static str)
    ensures
        icon@ == icon_spec(d@),
{
    if contains_str(d, "sunny") {
        "☀"
    } else if contains_str(d, "clear") {
        "🌙"
    } else if contains_str(d, "partly cloudy") {
        "⛅"
    } else if contains_str(d, "cloudy") {
        "☁"
    } else if contains_str(d, "overcast") {
        "🌥"
    } else if contains_str(d, "mist") || contains_str(d, "fog") {
        "🌫"
    } else if contains_str(d, "drizzle") || contains_str(d, "light rain") {
        "🌦"
    } else if contains_str(d, "rain") || contains_str(d, "shower") {
        "🌧"
    } else if contains_str(d, "sleet") {
        "🌨"
    } else if contains_str(d, "snow") {
        "❄"
    } else if contains_str(d, "thunder") {
        "🌩"
    } else {
        "?"
    }
}

/// Maps a weather description to its icon, ignoring case.
pub fn get_weather_icon(description: &str) -> (icon: &'static str)
    ensures
        icon@ == icon_spec(lower_of(description@)),
{
    let lower = lowercase(description);
    icon_for_lowercase(lower.as_str())
}

} // verus!
