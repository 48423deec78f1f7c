//! The settings that the modes share, and the file that keeps them.
//!
//! The file holds one `key=value` pair a line. Blank lines, lines that start with `#` and
//! lines without `=` are skipped; white space around a key or a value does not count; of
//! two lines with the same key the later one holds. A key that is missing, or whose value
//! cannot be read, leaves the setting at its default.
//!
//! Settings that are decimal fractions are numbers to the caller alone. What is loaded of
//! them is the text in the file; what is saved is the text that the caller displays the
//! number with, so that `75.0` in a file becomes `75`.

use crate::text;
use vstd::prelude::*;
use vstd::string::StringExecFns;

verus! {

/// How the trigger's recoil was left.
#[derive(Debug, Clone, Copy, PartialEq, Eq, Structural)]
pub enum SavedRecoilMode {
    SingleKick,
    RapidFire,
    Off,
}

/// The settings.
#[derive(Debug)]
pub struct Config {
    pub recoil_mode: SavedRecoilMode,
    pub lightgun_sensitivity: String,
    pub lightgun_accel_threshold: String,
    pub lightgun_accel_gain: String,
    pub lightgun_recoil_intensity: u8,
    pub lightgun_recoil_duration_ms: u64,
    pub lightgun_rapidfire_interval_ms: u64,
    /// Colour of the light in the lightgun gamepad mode.
    pub lightgun_led: (u8, u8, u8),
    /// Colour of the light in the mouse and keyboard mode.
    pub lightgun_raw_led: (u8, u8, u8),
    pub lightgun_translation_gain: String,
    pub lightgun_translation_decay: String,
}

/// The settings that are decimal fractions, as the caller displays them.
#[derive(Debug)]
pub struct Fractions {
    pub lightgun_sensitivity: String,
    pub lightgun_accel_threshold: String,
    pub lightgun_accel_gain: String,
    pub lightgun_translation_gain: String,
    pub lightgun_translation_decay: String,
}

/// The settings, with texts as sequences of characters.
pub struct ConfigView {
    pub recoil_mode: SavedRecoilMode,
    pub lightgun_sensitivity: Seq<char>,
    pub lightgun_accel_threshold: Seq<char>,
    pub lightgun_accel_gain: Seq<char>,
    pub lightgun_recoil_intensity: u8,
    pub lightgun_recoil_duration_ms: u64,
    pub lightgun_rapidfire_interval_ms: u64,
    pub lightgun_led: (u8, u8, u8),
    pub lightgun_raw_led: (u8, u8, u8),
    pub lightgun_translation_gain: Seq<char>,
    pub lightgun_translation_decay: Seq<char>,
}

impl View for Config {
    type V = ConfigView;

    open spec fn view(&self) -> ConfigView {
        ConfigView {
            recoil_mode: self.recoil_mode,
            lightgun_sensitivity: self.lightgun_sensitivity@,
            lightgun_accel_threshold: self.lightgun_accel_threshold@,
            lightgun_accel_gain: self.lightgun_accel_gain@,
            lightgun_recoil_intensity: self.lightgun_recoil_intensity,
            lightgun_recoil_duration_ms: self.lightgun_recoil_duration_ms,
            lightgun_rapidfire_interval_ms: self.lightgun_rapidfire_interval_ms,
            lightgun_led: self.lightgun_led,
            lightgun_raw_led: self.lightgun_raw_led,
            lightgun_translation_gain: self.lightgun_translation_gain@,
            lightgun_translation_decay: self.lightgun_translation_decay@,
        }
    }
}

impl ConfigView {
    /// Every setting that is a decimal fraction is the text of one.
    pub open spec fn wf(self) -> bool {
        &&& text::is_decimal(self.lightgun_sensitivity)
        &&& text::is_decimal(self.lightgun_accel_threshold)
        &&& text::is_decimal(self.lightgun_accel_gain)
        &&& text::is_decimal(self.lightgun_translation_gain)
        &&& text::is_decimal(self.lightgun_translation_decay)
    }
}

/// The displayed fractions, as sequences of characters.
pub struct FractionsView {
    pub lightgun_sensitivity: Seq<char>,
    pub lightgun_accel_threshold: Seq<char>,
    pub lightgun_accel_gain: Seq<char>,
    pub lightgun_translation_gain: Seq<char>,
    pub lightgun_translation_decay: Seq<char>,
}

impl View for Fractions {
    type V = FractionsView;

    open spec fn view(&self) -> FractionsView {
        FractionsView {
            lightgun_sensitivity: self.lightgun_sensitivity@,
            lightgun_accel_threshold: self.lightgun_accel_threshold@,
            lightgun_accel_gain: self.lightgun_accel_gain@,
            lightgun_translation_gain: self.lightgun_translation_gain@,
            lightgun_translation_decay: self.lightgun_translation_decay@,
        }
    }
}

impl ConfigView {
    /// The same settings, with the fractions as they are displayed.
    pub open spec fn showing(self, shown: FractionsView) -> ConfigView {
        ConfigView {
            lightgun_sensitivity: shown.lightgun_sensitivity,
            lightgun_accel_threshold: shown.lightgun_accel_threshold,
            lightgun_accel_gain: shown.lightgun_accel_gain,
            lightgun_translation_gain: shown.lightgun_translation_gain,
            lightgun_translation_decay: shown.lightgun_translation_decay,
            ..self
        }
    }
}

/// The settings of a driver that was never set up.
pub open spec fn default_settings() -> ConfigView {
    ConfigView {
        recoil_mode: SavedRecoilMode::SingleKick,
        lightgun_sensitivity: "75"@,
        lightgun_accel_threshold: "2500"@,
        lightgun_accel_gain: "0.0006"@,
        lightgun_recoil_intensity: 255,
        lightgun_recoil_duration_ms: 140,
        lightgun_rapidfire_interval_ms: 200,
        lightgun_led: (0, 128, 0),
        lightgun_raw_led: (255, 100, 0),
        lightgun_translation_gain: "12"@,
        lightgun_translation_decay: "0.85"@,
    }
}

/// The key and the value that one line of the file assigns, if it assigns any.
pub open spec fn assignment(line: Seq<char>) -> Option<(Seq<char>, Seq<char>)> {
    let t = text::trimmed(line);
    if t.len() == 0 || t[0] == '#' {
        None
    } else {
        match text::cut(t, '=') {
            Some((k, v)) => Some((text::trimmed(k), text::trimmed(v))),
            None => None,
        }
    }
}

/// The values that lines assign to keys, a later line over an earlier one.
pub open spec fn assignments(lines: Seq<Seq<char>>) -> Map<Seq<char>, Seq<char>>
    decreases lines.len(),
{
    if lines.len() == 0 {
        Map::empty()
    } else {
        let before = assignments(lines.drop_last());
        match assignment(lines.last()) {
            Some((k, v)) => before.insert(k, v),
            None => before,
        }
    }
}

/// The values that a file assigns to keys.
pub open spec fn file_assignments(content: Seq<char>) -> Map<Seq<char>, Seq<char>> {
    assignments(text::pieces(content, '\n'))
}

/// The decimal fraction that `m` assigns to `key`, else `default`.
pub open spec fn decimal_or(
    m: Map<Seq<char>, Seq<char>>,
    key: Seq<char>,
    default: Seq<char>,
) -> Seq<char> {
    if m.contains_key(key) && text::is_decimal(m[key]) {
        m[key]
    } else {
        default
    }
}

/// The whole number of at most `max` that `m` assigns to `key`, if it does.
pub open spec fn number_of(m: Map<Seq<char>, Seq<char>>, key: Seq<char>, max: int) -> Option<int> {
    if m.contains_key(key) {
        text::unsigned_value(m[key], max)
    } else {
        None
    }
}

/// The whole number of at most `max` that `m` assigns to `key`, else `default`.
pub open spec fn number_or(
    m: Map<Seq<char>, Seq<char>>,
    key: Seq<char>,
    max: int,
    default: int,
) -> int {
    match number_of(m, key, max) {
        Some(n) => n,
        None => default,
    }
}

/// The colour whose three channels `m` assigns to the three keys, if it assigns all of
/// them; else `default`.
pub open spec fn colour_or(
    m: Map<Seq<char>, Seq<char>>,
    red: Seq<char>,
    green: Seq<char>,
    blue: Seq<char>,
    default: (u8, u8, u8),
) -> (u8, u8, u8) {
    match (number_of(m, red, 255), number_of(m, green, 255), number_of(m, blue, 255)) {
        (Some(r), Some(g), Some(b)) => (r as u8, g as u8, b as u8),
        _ => default,
    }
}

/// The recoil mode that `m` assigns: an unknown name means the single kick.
pub open spec fn mode_of(m: Map<Seq<char>, Seq<char>>) -> SavedRecoilMode {
    if !m.contains_key("recoil_mode"@) {
        SavedRecoilMode::SingleKick
    } else if m["recoil_mode"@] == "rapid_fire"@ {
        SavedRecoilMode::RapidFire
    } else if m["recoil_mode"@] == "off"@ {
        SavedRecoilMode::Off
    } else {
        SavedRecoilMode::SingleKick
    }
}

/// The settings that assignments make of the defaults.
pub open spec fn settings_of(m: Map<Seq<char>, Seq<char>>) -> ConfigView {
    let d = default_settings();
    ConfigView {
        recoil_mode: mode_of(m),
        lightgun_sensitivity: decimal_or(m, "lightgun_sensitivity"@, d.lightgun_sensitivity),
        lightgun_accel_threshold: decimal_or(
            m,
            "lightgun_accel_threshold"@,
            d.lightgun_accel_threshold,
        ),
        lightgun_accel_gain: decimal_or(m, "lightgun_accel_gain"@, d.lightgun_accel_gain),
        lightgun_recoil_intensity: number_or(
            m,
            "lightgun_recoil_intensity"@,
            u8::MAX as int,
            d.lightgun_recoil_intensity as int,
        ) as u8,
        lightgun_recoil_duration_ms: number_or(
            m,
            "lightgun_recoil_duration_ms"@,
            u64::MAX as int,
            d.lightgun_recoil_duration_ms as int,
        ) as u64,
        lightgun_rapidfire_interval_ms: number_or(
            m,
            "lightgun_rapidfire_interval_ms"@,
            u64::MAX as int,
            d.lightgun_rapidfire_interval_ms as int,
        ) as u64,
        lightgun_led: colour_or(
            m,
            "lightgun_led_r"@,
            "lightgun_led_g"@,
            "lightgun_led_b"@,
            d.lightgun_led,
        ),
        lightgun_raw_led: colour_or(
            m,
            "lightgun_raw_led_r"@,
            "lightgun_raw_led_g"@,
            "lightgun_raw_led_b"@,
            d.lightgun_raw_led,
        ),
        lightgun_translation_gain: decimal_or(
            m,
            "lightgun_translation_gain"@,
            d.lightgun_translation_gain,
        ),
        lightgun_translation_decay: decimal_or(
            m,
            "lightgun_translation_decay"@,
            d.lightgun_translation_decay,
        ),
    }
}

/// The settings that a file holds.
pub open spec fn loaded(content: Seq<char>) -> ConfigView {
    settings_of(file_assignments(content))
}

/// The name of a recoil mode in the file.
pub open spec fn mode_name(mode: SavedRecoilMode) -> Seq<char> {
    match mode {
        SavedRecoilMode::SingleKick => "single_kick"@,
        SavedRecoilMode::RapidFire => "rapid_fire"@,
        SavedRecoilMode::Off => "off"@,
    }
}

/// The pairs that a file of these settings holds, in order.
pub open spec fn saved_pairs(v: ConfigView) -> Seq<(Seq<char>, Seq<char>)> {
    seq![
        ("recoil_mode"@, mode_name(v.recoil_mode)),
        ("lightgun_sensitivity"@, v.lightgun_sensitivity),
        ("lightgun_accel_threshold"@, v.lightgun_accel_threshold),
        ("lightgun_accel_gain"@, v.lightgun_accel_gain),
        (
            "lightgun_recoil_intensity"@,
            text::decimal_digits(v.lightgun_recoil_intensity as nat),
        ),
        (
            "lightgun_recoil_duration_ms"@,
            text::decimal_digits(v.lightgun_recoil_duration_ms as nat),
        ),
        (
            "lightgun_rapidfire_interval_ms"@,
            text::decimal_digits(v.lightgun_rapidfire_interval_ms as nat),
        ),
        ("lightgun_led_r"@, text::decimal_digits(v.lightgun_led.0 as nat)),
        ("lightgun_led_g"@, text::decimal_digits(v.lightgun_led.1 as nat)),
        ("lightgun_led_b"@, text::decimal_digits(v.lightgun_led.2 as nat)),
        ("lightgun_raw_led_r"@, text::decimal_digits(v.lightgun_raw_led.0 as nat)),
        ("lightgun_raw_led_g"@, text::decimal_digits(v.lightgun_raw_led.1 as nat)),
        ("lightgun_raw_led_b"@, text::decimal_digits(v.lightgun_raw_led.2 as nat)),
        ("lightgun_translation_gain"@, v.lightgun_translation_gain),
        ("lightgun_translation_decay"@, v.lightgun_translation_decay),
    ]
}

/// A pair as a line of the file holds it.
pub open spec fn pair_text(pair: (Seq<char>, Seq<char>)) -> Seq<char> {
    pair.0.push('=') + pair.1
}

/// The lines of the pairs, each ended.
pub open spec fn pair_lines(pairs: Seq<(Seq<char>, Seq<char>)>) -> Seq<char>
    decreases pairs.len(),
{
    if pairs.len() == 0 {
        Seq::empty()
    } else {
        pair_lines(pairs.drop_last()) + pair_text(pairs.last()).push('\n')
    }
}

/// The comment that a file starts with.
pub open spec fn heading() -> Seq<char> {
    "# ps-aim-windows config -- edited by UI or driver"@
}

/// The file of these settings.
pub open spec fn saved(v: ConfigView) -> Seq<char> {
    heading().push('\n') + pair_lines(saved_pairs(v))
}

/// The keys and values that lines have assigned so far, in the order they came.
struct Assignments {
    entries: Vec<(Vec<char>, Vec<char>)>,
}

spec fn map_of(entries: Seq<(Vec<char>, Vec<char>)>) -> Map<Seq<char>, Seq<char>>
    decreases entries.len(),
{
    if entries.len() == 0 {
        Map::empty()
    } else {
        map_of(entries.drop_last()).insert(entries.last().0@, entries.last().1@)
    }
}

impl View for Assignments {
    type V = Map<Seq<char>, Seq<char>>;

    closed spec fn view(&self) -> Map<Seq<char>, Seq<char>> {
        map_of(self.entries@)
    }
}

/// The characters of a slice, as a vector.
fn to_vec(chars: &[char]) -> (v: Vec<char>)
    ensures
        v@ == chars@,
{
    let mut v: Vec<char> = Vec::new();
    let n: usize = chars.len();
    for i in 0..n
        invariant
            n == chars@.len(),
            v@ == chars@.take(i as int),
    {
        v.push(chars[i]);
        assert(v@ =~= chars@.take(i + 1));
    }
    assert(chars@.take(n as int) =~= chars@);
    v
}

impl Assignments {
    /// Reads the lines of a file.
    fn read(content: &str) -> (m: Assignments)
        ensures
            m@ == file_assignments(content@),
    {
        let lines = text::split(text::chars_of(content).as_slice(), '\n');
        let ghost all = text::pieces(content@, '\n');
        let mut m = Assignments { entries: Vec::new() };
        let n: usize = lines.len();
        assert(all.take(0) =~= Seq::<Seq<char>>::empty());
        for i in 0..n
            invariant
                n == lines@.len(),
                all == lines@.map_values(|p: Vec<char>| p@),
                m@ == assignments(all.take(i as int)),
        {
            proof {
                assert(all.take(i + 1).drop_last() =~= all.take(i as int));
                assert(all.take(i + 1).last() == lines@[i as int]@);
            }
            m.read_line(lines[i].as_slice());
        }
        assert(all.take(n as int) =~= all);
        m
    }

    /// Takes one more line into account.
    fn read_line(&mut self, line: &[char])
        ensures
            final(self)@ == match assignment(line@) {
                Some((k, v)) => old(self)@.insert(k, v),
                None => old(self)@,
            },
    {
        let line = text::trim(line);
        if line.len() == 0 || line[0] == '#' {
            return;
        }
        if let Some((k, v)) = text::split_once(line, '=') {
            let entry = (to_vec(text::trim(k)), to_vec(text::trim(v)));
            let ghost was = self.entries@;
            self.entries.push(entry);
            assert(self.entries@.drop_last() =~= was);
        }
    }

    /// The value that was last assigned to a key.
    fn get(&self, key: &str) -> (value: Option<&[char]>)
        ensures
            value is Some <==> self@.contains_key(key@),
            value matches Some(v) ==> self@[key@] == v@,
    {
        let wanted = text::chars_of(key);
        let mut i: usize = self.entries.len();
        assert(self.entries@.take(i as int) =~= self.entries@);
        while i > 0
            invariant
                wanted@ == key@,
                i <= self.entries@.len(),
                self@.contains_key(key@) <==> map_of(self.entries@.take(i as int)).contains_key(
                    key@,
                ),
                self@.contains_key(key@) ==> self@[key@] == map_of(
                    self.entries@.take(i as int),
                )[key@],
            decreases i,
        {
            assert(self.entries@.take(i as int).drop_last() =~= self.entries@.take(i - 1));
            i = i - 1;
            if text::same(self.entries[i].0.as_slice(), wanted.as_slice()) {
                return Some(self.entries[i].1.as_slice());
            }
        }
        assert(self.entries@.take(0) =~= Seq::empty());
        None
    }

    /// A decimal fraction, else the default.
    fn decimal(&self, key: &str, default: String) -> (value: String)
        ensures
            value@ == decimal_or(self@, key@, default@),
    {
        match self.get(key) {
            Some(v) if text::decimal(v) => text::string_of(v),
            _ => default,
        }
    }

    /// A whole number of at most `max`, if there is one.
    fn number(&self, key: &str, max: u64) -> (value: Option<u64>)
        ensures
            value is Some <==> number_of(self@, key@, max as int) is Some,
            value matches Some(v) ==> number_of(self@, key@, max as int) == Some(v as int),
            value matches Some(v) ==> v <= max,
    {
        match self.get(key) {
            Some(v) => text::parse_unsigned(v, max),
            None => None,
        }
    }

    /// A colour, else the default.
    fn colour(&self, red: &str, green: &str, blue: &str, default: (u8, u8, u8)) -> (value: (
        u8,
        u8,
        u8,
    ))
        ensures
            value == colour_or(self@, red@, green@, blue@, default),
    {
        match (self.number(red, 255), self.number(green, 255), self.number(blue, 255)) {
            (Some(r), Some(g), Some(b)) => (r as u8, g as u8, b as u8),
            _ => default,
        }
    }

    /// The recoil mode.
    fn mode(&self) -> (mode: SavedRecoilMode)
        ensures
            mode == mode_of(self@),
    {
        match self.get("recoil_mode") {
            None => SavedRecoilMode::SingleKick,
            Some(v) => {
                if text::same(v, text::chars_of("rapid_fire").as_slice()) {
                    SavedRecoilMode::RapidFire
                } else if text::same(v, text::chars_of("off").as_slice()) {
                    SavedRecoilMode::Off
                } else {
                    SavedRecoilMode::SingleKick
                }
            },
        }
    }
}

/// The defaults are decimal fractions where they are to be.
pub proof fn default_settings_are_wf()
    ensures
        default_settings().wf(),
{
    reveal_strlit("75");
    reveal_strlit("2500");
    reveal_strlit("0.0006");
    reveal_strlit("12");
    reveal_strlit("0.85");
    lemma_plain_decimal("75"@, 0);
    lemma_plain_decimal("2500"@, 0);
    lemma_plain_decimal("0.0006"@, 1);
    lemma_plain_decimal("12"@, 0);
    lemma_plain_decimal("0.85"@, 1);
}

/// Digits, with a point among them that no digit stands at, write a decimal fraction.
proof fn lemma_plain_decimal(s: Seq<char>, point: int)
    requires
        s.len() > 1,
        text::is_digit(s[0]),
        forall|i: int|
            0 <= i < s.len() ==> text::is_digit(#[trigger] s[i]) || (i == point && s[i] == '.'),
    ensures
        text::is_decimal(s),
{
    lemma_whole_mantissa(s);
    assert(s.take(s.len() as int) =~= s);
}

proof fn lemma_whole_mantissa(s: Seq<char>)
    requires
        forall|i: int| 0 <= i < s.len() ==> text::is_digit(#[trigger] s[i]) || s[i] == '.',
    ensures
        text::mantissa_len(s) == s.len(),
    decreases s.len(),
{
    if s.len() > 0 {
        assert(text::is_digit(s[0]) || s[0] == '.');
        assert forall|i: int| 0 <= i < s.drop_first().len() implies text::is_digit(
            #[trigger] s.drop_first()[i],
        ) || s.drop_first()[i] == '.' by {
            assert(text::is_digit(s[i + 1]) || s[i + 1] == '.');
        }
        lemma_whole_mantissa(s.drop_first());
    }
}

/// One more pair is one more line.
proof fn lemma_one_more_pair(head: Seq<char>, pairs: Seq<(Seq<char>, Seq<char>)>, i: int)
    requires
        0 <= i < pairs.len(),
    ensures
        head + pair_lines(pairs.take(i + 1)) == head + pair_lines(pairs.take(i)) + pair_text(
            pairs[i],
        ).push('\n'),
{
    let more = pairs.take(i + 1);
    assert(more.drop_last() =~= pairs.take(i));
    assert(head + (pair_lines(pairs.take(i)) + pair_text(pairs[i]).push('\n')) =~= head
        + pair_lines(pairs.take(i)) + pair_text(pairs[i]).push('\n'));
}

/// Writes a line with a text.
fn push_text(out: &mut String, key: &str, value: &str)
    ensures
        final(out)@ == old(out)@ + pair_text((key@, value@)).push('\n'),
{
    out.append(key);
    out.push('=');
    out.append(value);
    out.push('\n');
    assert(out@ =~= old(out)@ + pair_text((key@, value@)).push('\n'));
}

/// Writes a line with a number.
fn push_count(out: &mut String, key: &str, value: u64)
    ensures
        final(out)@ == old(out)@ + pair_text((key@, text::decimal_digits(value as nat))).push(
            '\n',
        ),
{
    out.append(key);
    out.push('=');
    text::push_number(out, value);
    out.push('\n');
    assert(out@ =~= old(out)@ + pair_text((key@, text::decimal_digits(value as nat))).push('\n'));
}

impl Default for Config {
    fn default() -> (cfg: Self)
        ensures
            cfg@ == default_settings(),
            cfg@.wf(),
    {
        proof {
            default_settings_are_wf();
        }
        Config {
            recoil_mode: SavedRecoilMode::SingleKick,
            lightgun_sensitivity: "75".to_owned(),
            lightgun_accel_threshold: "2500".to_owned(),
            lightgun_accel_gain: "0.0006".to_owned(),
            lightgun_recoil_intensity: 255,
            lightgun_recoil_duration_ms: 140,
            lightgun_rapidfire_interval_ms: 200,
            lightgun_led: (0, 128, 0),
            lightgun_raw_led: (255, 100, 0),
            lightgun_translation_gain: "12".to_owned(),
            lightgun_translation_decay: "0.85".to_owned(),
        }
    }
}

impl Config {
    /// The settings that a file holds; the defaults where the file cannot be read.
    pub fn load(content: Option<&str>) -> (cfg: Self)
        ensures
            cfg@ == match content {
                Some(c) => loaded(c@),
                None => default_settings(),
            },
            cfg@.wf(),
    {
        proof {
            default_settings_are_wf();
        }
        let d = Config::default();
        let m = match content {
            Some(c) => Assignments::read(c),
            None => return d,
        };
        Config {
            recoil_mode: m.mode(),
            lightgun_sensitivity: m.decimal("lightgun_sensitivity", d.lightgun_sensitivity),
            lightgun_accel_threshold: m.decimal(
                "lightgun_accel_threshold",
                d.lightgun_accel_threshold,
            ),
            lightgun_accel_gain: m.decimal("lightgun_accel_gain", d.lightgun_accel_gain),
            lightgun_recoil_intensity: match m.number("lightgun_recoil_intensity", 255) {
                Some(n) => n as u8,
                None => d.lightgun_recoil_intensity,
            },
            lightgun_recoil_duration_ms: match m.number("lightgun_recoil_duration_ms", u64::MAX) {
                Some(n) => n,
                None => d.lightgun_recoil_duration_ms,
            },
            lightgun_rapidfire_interval_ms: match m.number(
                "lightgun_rapidfire_interval_ms",
                u64::MAX,
            ) {
                Some(n) => n,
                None => d.lightgun_rapidfire_interval_ms,
            },
            lightgun_led: m.colour(
                "lightgun_led_r",
                "lightgun_led_g",
                "lightgun_led_b",
                d.lightgun_led,
            ),
            lightgun_raw_led: m.colour(
                "lightgun_raw_led_r",
                "lightgun_raw_led_g",
                "lightgun_raw_led_b",
                d.lightgun_raw_led,
            ),
            lightgun_translation_gain: m.decimal(
                "lightgun_translation_gain",
                d.lightgun_translation_gain,
            ),
            lightgun_translation_decay: m.decimal(
                "lightgun_translation_decay",
                d.lightgun_translation_decay,
            ),
        }
    }

    /// The file of these settings, with the fractions as `shown` displays them.
    pub fn save(&self, shown: &Fractions) -> (content: String)
        ensures
            content@ == saved(self@.showing(shown@)),
    {
        let mode = match self.recoil_mode {
            SavedRecoilMode::SingleKick => "single_kick",
            SavedRecoilMode::RapidFire => "rapid_fire",
            SavedRecoilMode::Off => "off",
        };
        let mut out = "# ps-aim-windows config -- edited by UI or driver".to_owned();
        out.push('\n');
        push_text(&mut out, "recoil_mode", mode);
        push_text(&mut out, "lightgun_sensitivity", shown.lightgun_sensitivity.as_str());
        push_text(&mut out, "lightgun_accel_threshold", shown.lightgun_accel_threshold.as_str());
        push_text(&mut out, "lightgun_accel_gain", shown.lightgun_accel_gain.as_str());
        push_count(&mut out, "lightgun_recoil_intensity", self.lightgun_recoil_intensity as u64);
        push_count(&mut out, "lightgun_recoil_duration_ms", self.lightgun_recoil_duration_ms);
        push_count(&mut out, "lightgun_rapidfire_interval_ms", self.lightgun_rapidfire_interval_ms);
        push_count(&mut out, "lightgun_led_r", self.lightgun_led.0 as u64);
        push_count(&mut out, "lightgun_led_g", self.lightgun_led.1 as u64);
        push_count(&mut out, "lightgun_led_b", self.lightgun_led.2 as u64);
        push_count(&mut out, "lightgun_raw_led_r", self.lightgun_raw_led.0 as u64);
        push_count(&mut out, "lightgun_raw_led_g", self.lightgun_raw_led.1 as u64);
        push_count(&mut out, "lightgun_raw_led_b", self.lightgun_raw_led.2 as u64);
        push_text(&mut out, "lightgun_translation_gain", shown.lightgun_translation_gain.as_str());
        push_text(&mut out, "lightgun_translation_decay", shown.lightgun_translation_decay.as_str());
        proof {
            let head = heading().push('\n');
            let pairs = saved_pairs(self@.showing(shown@));
            assert(head + pair_lines(pairs.take(0)) =~= head);
            lemma_one_more_pair(head, pairs, 0);
            lemma_one_more_pair(head, pairs, 1);
            lemma_one_more_pair(head, pairs, 2);
            lemma_one_more_pair(head, pairs, 3);
            lemma_one_more_pair(head, pairs, 4);
            lemma_one_more_pair(head, pairs, 5);
            lemma_one_more_pair(head, pairs, 6);
            lemma_one_more_pair(head, pairs, 7);
            lemma_one_more_pair(head, pairs, 8);
            lemma_one_more_pair(head, pairs, 9);
            lemma_one_more_pair(head, pairs, 10);
            lemma_one_more_pair(head, pairs, 11);
            lemma_one_more_pair(head, pairs, 12);
            lemma_one_more_pair(head, pairs, 13);
            lemma_one_more_pair(head, pairs, 14);
            assert(pairs.take(15) =~= pairs);
        }
        out
    }
}

/// A key that a line gives back: something of its own, free of white space and of what
/// a line is cut at, and no comment.
spec fn is_key(k: Seq<char>) -> bool {
    &&& k.len() > 0
    &&& k[0] != '#'
    &&& forall|i: int| 0 <= i < k.len() ==> !text::is_white(#[trigger] k[i]) && k[i] != '='
}

/// A value that a line gives back: something free of white space.
spec fn is_value(v: Seq<char>) -> bool {
    &&& v.len() > 0
    &&& forall|i: int| 0 <= i < v.len() ==> !text::is_white(#[trigger] v[i])
}

/// The values that pairs assign to keys.
spec fn pairs_map(pairs: Seq<(Seq<char>, Seq<char>)>) -> Map<Seq<char>, Seq<char>>
    decreases pairs.len(),
{
    if pairs.len() == 0 {
        Map::empty()
    } else {
        pairs_map(pairs.drop_last()).insert(pairs.last().0, pairs.last().1)
    }
}

proof fn lemma_pair_is_assigned(k: Seq<char>, v: Seq<char>)
    requires
        is_key(k),
        is_value(v),
    ensures
        assignment(pair_text((k, v))) == Some((k, v)),
        forall|i: int| 0 <= i < pair_text((k, v)).len() ==> #[trigger] pair_text((k, v))[i] != '\n',
{
    let t = pair_text((k, v));
    assert(t[0] == k[0]);
    assert(t.last() == v.last());
    assert(!text::is_white(v[v.len() - 1]) && !text::is_white(k[0]) && !text::is_white(
        k[k.len() - 1],
    ) && !text::is_white(v[0]));
    text::lemma_trimmed(t);
    text::lemma_trimmed(k);
    text::lemma_trimmed(v);
    let n = k.len() as int;
    assert(t[n] == '=');
    t.index_of_first_ensures('=');
    let at = t.index_of_first('=').unwrap();
    if at < n {
        assert(t[at] == k[at]);
    }
    assert(at == n);
    assert(t.take(n) =~= k);
    assert(t.skip(n + 1) =~= v);
    assert forall|i: int| 0 <= i < t.len() implies #[trigger] t[i] != '\n' by {
        if i < n {
            assert(t[i] == k[i]);
        } else if i > n {
            assert(t[i] == v[i - n - 1]);
        }
    }
}

proof fn lemma_line_is_read(a: Seq<char>, line: Seq<char>)
    requires
        forall|i: int| 0 <= i < line.len() ==> #[trigger] line[i] != '\n',
        text::pieces(a, '\n').last() == Seq::<char>::empty(),
    ensures
        file_assignments(a + line.push('\n')) == match assignment(line) {
            Some((k, v)) => file_assignments(a).insert(k, v),
            None => file_assignments(a),
        },
        text::pieces(a + line.push('\n'), '\n').last() == Seq::<char>::empty(),
{
    text::lemma_pieces_line(a, line, '\n');
    text::lemma_pieces_nonempty(a, '\n');
    let before = text::pieces(a, '\n');
    let after = text::pieces(a + line.push('\n'), '\n');
    assert(assignment(Seq::<char>::empty()) is None);
    assert(assignments(before) == assignments(before.drop_last()));
    assert(after.drop_last() =~= before.drop_last().push(line));
    assert(before.drop_last().push(line).drop_last() =~= before.drop_last());
    assert(assignments(after) == assignments(before.drop_last().push(line)));
}

proof fn lemma_pairs_are_read(head: Seq<char>, pairs: Seq<(Seq<char>, Seq<char>)>)
    requires
        forall|i: int| 0 <= i < pairs.len() ==> is_key(#[trigger] pairs[i].0) && is_value(pairs[i].1),
        text::pieces(head, '\n').last() == Seq::<char>::empty(),
        file_assignments(head) == Map::<Seq<char>, Seq<char>>::empty(),
    ensures
        file_assignments(head + pair_lines(pairs)) == pairs_map(pairs),
        text::pieces(head + pair_lines(pairs), '\n').last() == Seq::<char>::empty(),
    decreases pairs.len(),
{
    if pairs.len() == 0 {
        assert(head + pair_lines(pairs) =~= head);
    } else {
        let fewer = pairs.drop_last();
        assert forall|i: int| 0 <= i < fewer.len() implies is_key(#[trigger] fewer[i].0)
            && is_value(fewer[i].1) by {
            assert(is_key(pairs[i].0));
        }
        lemma_pairs_are_read(head, fewer);
        let last = pairs[pairs.len() - 1];
        assert(is_key(pairs[pairs.len() - 1].0));
        lemma_pair_is_assigned(last.0, last.1);
        lemma_line_is_read(head + pair_lines(fewer), pair_text(last));
        assert(head + pair_lines(pairs) =~= head + pair_lines(fewer) + pair_text(last).push('\n'));
    }
}

proof fn lemma_pair_is_kept(pairs: Seq<(Seq<char>, Seq<char>)>, i: int)
    requires
        0 <= i < pairs.len(),
        forall|j: int| i < j < pairs.len() ==> pairs[i].0 != #[trigger] pairs[j].0,
    ensures
        pairs_map(pairs).contains_key(pairs[i].0),
        pairs_map(pairs)[pairs[i].0] == pairs[i].1,
    decreases pairs.len(),
{
    let n = pairs.len() - 1;
    if i < n {
        let fewer = pairs.drop_last();
        assert(pairs[i].0 != pairs[n].0);
        assert(fewer[i] == pairs[i]);
        assert forall|j: int| i < j < fewer.len() implies fewer[i].0 != #[trigger] fewer[j].0 by {
            assert(pairs[i].0 != pairs[j].0);
        }
        lemma_pair_is_kept(fewer, i);
    }
}

proof fn lemma_keys()
    ensures
        is_key("recoil_mode"@),
        is_key("lightgun_sensitivity"@),
        is_key("lightgun_accel_threshold"@),
        is_key("lightgun_accel_gain"@),
        is_key("lightgun_recoil_intensity"@),
        is_key("lightgun_recoil_duration_ms"@),
        is_key("lightgun_rapidfire_interval_ms"@),
        is_key("lightgun_led_r"@),
        is_key("lightgun_led_g"@),
        is_key("lightgun_led_b"@),
        is_key("lightgun_raw_led_r"@),
        is_key("lightgun_raw_led_g"@),
        is_key("lightgun_raw_led_b"@),
        is_key("lightgun_translation_gain"@),
        is_key("lightgun_translation_decay"@),
        "recoil_mode"@.len() == 11,
        "lightgun_sensitivity"@.len() == 20,
        "lightgun_accel_threshold"@.len() == 24,
        "lightgun_accel_gain"@.len() == 19,
        "lightgun_recoil_intensity"@.len() == 25,
        "lightgun_recoil_intensity"@[9] == 'r',
        "lightgun_recoil_duration_ms"@.len() == 27,
        "lightgun_rapidfire_interval_ms"@.len() == 30,
        "lightgun_led_r"@.len() == 14,
        "lightgun_led_r"@[13] == 'r',
        "lightgun_led_g"@.len() == 14,
        "lightgun_led_g"@[13] == 'g',
        "lightgun_led_b"@.len() == 14,
        "lightgun_led_b"@[13] == 'b',
        "lightgun_raw_led_r"@.len() == 18,
        "lightgun_raw_led_r"@[17] == 'r',
        "lightgun_raw_led_g"@.len() == 18,
        "lightgun_raw_led_g"@[17] == 'g',
        "lightgun_raw_led_b"@.len() == 18,
        "lightgun_raw_led_b"@[17] == 'b',
        "lightgun_translation_gain"@.len() == 25,
        "lightgun_translation_gain"@[9] == 't',
        "lightgun_translation_decay"@.len() == 26,
{
    reveal_strlit("recoil_mode");
    reveal_strlit("lightgun_sensitivity");
    reveal_strlit("lightgun_accel_threshold");
    reveal_strlit("lightgun_accel_gain");
    reveal_strlit("lightgun_recoil_intensity");
    reveal_strlit("lightgun_recoil_duration_ms");
    reveal_strlit("lightgun_rapidfire_interval_ms");
    reveal_strlit("lightgun_led_r");
    reveal_strlit("lightgun_led_g");
    reveal_strlit("lightgun_led_b");
    reveal_strlit("lightgun_raw_led_r");
    reveal_strlit("lightgun_raw_led_g");
    reveal_strlit("lightgun_raw_led_b");
    reveal_strlit("lightgun_translation_gain");
    reveal_strlit("lightgun_translation_decay");
}

proof fn lemma_number_is_value(n: nat, max: int)
    requires
        n <= max,
    ensures
        is_value(text::decimal_digits(n)),
        text::unsigned_value(text::decimal_digits(n), max) == Some(n as int),
{
    text::number_reads_back(n);
    let s = text::decimal_digits(n);
    assert forall|i: int| 0 <= i < s.len() implies !text::is_white(#[trigger] s[i]) by {
        assert(text::is_digit(s[i]));
    }
}

proof fn lemma_mode_is_value(mode: SavedRecoilMode)
    ensures
        is_value(mode_name(mode)),
        mode == SavedRecoilMode::SingleKick ==> mode_name(mode) != "rapid_fire"@ && mode_name(mode)
            != "off"@,
        mode == SavedRecoilMode::Off ==> mode_name(mode) != "rapid_fire"@,
{
    reveal_strlit("single_kick");
    reveal_strlit("rapid_fire");
    reveal_strlit("off");
    assert("single_kick"@.len() == 11);
    assert("rapid_fire"@.len() == 10);
    assert("off"@.len() == 3);
}

proof fn lemma_heading_assigns_nothing()
    ensures
        text::pieces(heading().push('\n'), '\n').last() == Seq::<char>::empty(),
        file_assignments(heading().push('\n')) == Map::<Seq<char>, Seq<char>>::empty(),
{
    reveal_strlit("# ps-aim-windows config -- edited by UI or driver");
    let none = Seq::<char>::empty();
    let h = heading();
    let one = text::pieces(none, '\n');
    assert(one.len() == 1 && one.last() == none);
    assert(assignments(one.drop_last()) == Map::<Seq<char>, Seq<char>>::empty());
    assert(assignment(none) is None);
    assert(file_assignments(none) == Map::<Seq<char>, Seq<char>>::empty());
    text::lemma_trimmed(h);
    assert(assignment(h) is None);
    lemma_line_is_read(none, h);
    assert(none + h.push('\n') =~= h.push('\n'));
}

/// Settings that are saved and loaded again are the same settings: every field, with the
/// fractions as they were displayed.
pub proof fn saved_settings_read_back(v: ConfigView)
    requires
        v.wf(),
    ensures
        loaded(saved(v)) == v,
{
    let pairs = saved_pairs(v);
    let head = heading().push('\n');
    lemma_heading_assigns_nothing();
    lemma_keys();
    lemma_mode_is_value(v.recoil_mode);
    text::lemma_decimal_has_no_white(v.lightgun_sensitivity);
    text::lemma_decimal_has_no_white(v.lightgun_accel_threshold);
    text::lemma_decimal_has_no_white(v.lightgun_accel_gain);
    text::lemma_decimal_has_no_white(v.lightgun_translation_gain);
    text::lemma_decimal_has_no_white(v.lightgun_translation_decay);
    lemma_number_is_value(v.lightgun_recoil_intensity as nat, u8::MAX as int);
    lemma_number_is_value(v.lightgun_recoil_duration_ms as nat, u64::MAX as int);
    lemma_number_is_value(v.lightgun_rapidfire_interval_ms as nat, u64::MAX as int);
    lemma_number_is_value(v.lightgun_led.0 as nat, 255);
    lemma_number_is_value(v.lightgun_led.1 as nat, 255);
    lemma_number_is_value(v.lightgun_led.2 as nat, 255);
    lemma_number_is_value(v.lightgun_raw_led.0 as nat, 255);
    lemma_number_is_value(v.lightgun_raw_led.1 as nat, 255);
    lemma_number_is_value(v.lightgun_raw_led.2 as nat, 255);
    assert forall|i: int| 0 <= i < pairs.len() implies is_key(#[trigger] pairs[i].0) && is_value(
        pairs[i].1,
    ) by {}
    lemma_pairs_are_read(head, pairs);
    let m = pairs_map(pairs);
    assert(file_assignments(saved(v)) == m);
    lemma_pair_is_kept(pairs, 0);
    lemma_pair_is_kept(pairs, 1);
    lemma_pair_is_kept(pairs, 2);
    lemma_pair_is_kept(pairs, 3);
    lemma_pair_is_kept(pairs, 4);
    lemma_pair_is_kept(pairs, 5);
    lemma_pair_is_kept(pairs, 6);
    lemma_pair_is_kept(pairs, 7);
    lemma_pair_is_kept(pairs, 8);
    lemma_pair_is_kept(pairs, 9);
    lemma_pair_is_kept(pairs, 10);
    lemma_pair_is_kept(pairs, 11);
    lemma_pair_is_kept(pairs, 12);
    lemma_pair_is_kept(pairs, 13);
    lemma_pair_is_kept(pairs, 14);
}

/// What is loaded from any file has decimal fractions where they are to be.
pub proof fn loaded_settings_are_wf(content: Seq<char>)
    ensures
        loaded(content).wf(),
{
    default_settings_are_wf();
}

/// Remembering another recoil mode leaves every other setting as it was: the file is
/// loaded, the mode replaced, the result saved with the fractions as they are displayed,
/// and loaded again.
pub proof fn remembering_the_mode_keeps_the_rest(
    content: Seq<char>,
    mode: SavedRecoilMode,
    shown: FractionsView,
)
    requires
        loaded(content).showing(shown).wf(),
    ensures
        loaded(saved((ConfigView { recoil_mode: mode, ..loaded(content) }).showing(shown))) == (
        ConfigView { recoil_mode: mode, ..loaded(content) }).showing(shown),
{
    saved_settings_read_back((ConfigView { recoil_mode: mode, ..loaded(content) }).showing(shown));
}

/// Lines are read in order, and a later one holds over an earlier one: what two parts of a
/// file assign is what the second does, and the first where the second does not.
pub proof fn later_lines_hold(a: Seq<Seq<char>>, b: Seq<Seq<char>>)
    ensures
        assignments(a + b) == assignments(a).union_prefer_right(assignments(b)),
    decreases b.len(),
{
    if b.len() == 0 {
        assert(a + b =~= a);
        assert(assignments(a).union_prefer_right(assignments(b)) =~= assignments(a));
    } else {
        later_lines_hold(a, b.drop_last());
        assert((a + b).drop_last() =~= a + b.drop_last());
        assert((a + b).last() == b.last());
        assert(assignments(a + b) =~= assignments(a).union_prefer_right(assignments(b)));
    }
}

/// A key and a value with `=` between them are assigned, whatever white space is around
/// them; the value may hold another `=`.
pub proof fn white_space_does_not_count(
    k: Seq<char>,
    v: Seq<char>,
    a: Seq<char>,
    b: Seq<char>,
    c: Seq<char>,
    d: Seq<char>,
)
    requires
        k.len() > 0,
        k[0] != '#',
        !text::is_white(k[0]) && !text::is_white(k.last()),
        forall|i: int| 0 <= i < k.len() ==> #[trigger] k[i] != '=',
        v.len() > 0 ==> !text::is_white(v[0]) && !text::is_white(v.last()),
        text::all_white(a) && text::all_white(b) && text::all_white(c) && text::all_white(d),
    ensures
        assignment(a + (k + b).push('=') + (c + v) + d) == Some((k, v)),
{
    let line = a + (k + b).push('=') + (c + v) + d;
    let none = Seq::<char>::empty();
    let kb = k + b;
    assert forall|i: int| 0 <= i < kb.len() implies #[trigger] kb[i] != '=' by {
        if i < k.len() {
            assert(k[i] != '=');
        } else {
            assert(text::is_white(b[i - k.len()]));
        }
    }
    assert(text::all_white(none));
    text::white_space_is_cut_off(none, k, b);
    assert(none + k + b =~= kb);
    // What is left of the line, and of its value, once the line is trimmed.
    let rest = if v.len() > 0 {
        c + v
    } else {
        none
    };
    let t = kb.push('=') + rest;
    let tail = if v.len() > 0 {
        d
    } else {
        c + v + d
    };
    assert(line =~= a + t + tail);
    assert forall|i: int| 0 <= i < tail.len() implies text::is_white(#[trigger] tail[i]) by {
        if v.len() > 0 {
            assert(text::is_white(d[i]));
        } else if i < c.len() {
            assert(text::is_white(c[i]));
        } else {
            assert(text::is_white(d[i - c.len()]));
        }
    }
    assert(t[0] == k[0]);
    if v.len() > 0 {
        assert(t.last() == v.last());
        text::white_space_is_cut_off(c, v, none);
        assert(c + v + none =~= rest);
    } else {
        assert(t.last() == '=');
        text::white_space_is_cut_off(none, none, none);
        assert(none + none + none =~= none);
        assert(v =~= none);
    }
    text::white_space_is_cut_off(a, t, tail);
    text::text_is_cut_at_the_first(kb, rest, '=');
}

/// A comment assigns nothing, whatever white space is in front of it and whatever it says;
/// nor does a blank line, nor one without `=`.
pub proof fn other_lines_are_skipped(a: Seq<char>, rest: Seq<char>, line: Seq<char>)
    requires
        text::all_white(a),
        forall|i: int| 0 <= i < line.len() ==> #[trigger] line[i] != '=',
    ensures
        assignment(a + seq!['#'] + rest) is None,
        assignment(a) is None,
        assignment(line) is None,
{
    let none = Seq::<char>::empty();
    text::white_space_is_cut_off(a, none, none);
    assert(a + none + none =~= a);
    let c = seq!['#'] + rest;
    assert(a + seq!['#'] + rest =~= a + c);
    text::lemma_white_start(a, c);
    assert(c[0] == '#' && !text::is_white('#'));
    assert(text::trim_start(c) == c);
    text::lemma_trim_end_keeps(c);
    text::lemma_trimmed_is_part(line);
    let t = text::trimmed(line);
    assert forall|i: int| 0 <= i < t.len() implies #[trigger] t[i] != '=' by {
        assert(line.contains(t[i]));
    }
    t.index_of_first_ensures('=');
}

/// A setting whose key is missing, or whose value cannot be read, has its default: the single
/// kick, strength 255 for 140 ms, 200 ms between the shots of rapid fire, a sensitivity of
/// 75, acceleration from 2500 on by 0.0006, translation by 12 that decays by 0.85, and the
/// lights green, 128 strong, and orange.
pub proof fn unreadable_values_leave_the_default(m: Map<Seq<char>, Seq<char>>)
    ensures
        ({
            let c = settings_of(m);
            let lacks = |k: Seq<char>| !m.contains_key(k);
            let no_number = |k: Seq<char>, max: int|
                lacks(k) || text::unsigned_value(m[k], max) is None;
            let no_fraction = |k: Seq<char>| lacks(k) || !text::is_decimal(m[k]);
            &&& lacks("recoil_mode"@) ==> c.recoil_mode == SavedRecoilMode::SingleKick
            &&& no_number("lightgun_recoil_intensity"@, 255) ==> c.lightgun_recoil_intensity == 255
            &&& no_number("lightgun_recoil_duration_ms"@, u64::MAX as int)
                ==> c.lightgun_recoil_duration_ms == 140
            &&& no_number("lightgun_rapidfire_interval_ms"@, u64::MAX as int)
                ==> c.lightgun_rapidfire_interval_ms == 200
            &&& no_number("lightgun_led_r"@, 255) || no_number("lightgun_led_g"@, 255) || no_number(
                "lightgun_led_b"@,
                255,
            ) ==> c.lightgun_led == (0u8, 128u8, 0u8)
            &&& no_number("lightgun_raw_led_r"@, 255) || no_number("lightgun_raw_led_g"@, 255)
                || no_number("lightgun_raw_led_b"@, 255) ==> c.lightgun_raw_led == (
                255u8,
                100u8,
                0u8,
            )
            &&& no_fraction("lightgun_sensitivity"@) ==> c.lightgun_sensitivity == "75"@
            &&& no_fraction("lightgun_accel_threshold"@) ==> c.lightgun_accel_threshold == "2500"@
            &&& no_fraction("lightgun_accel_gain"@) ==> c.lightgun_accel_gain == "0.0006"@
            &&& no_fraction("lightgun_translation_gain"@) ==> c.lightgun_translation_gain == "12"@
            &&& no_fraction("lightgun_translation_decay"@) ==> c.lightgun_translation_decay
                == "0.85"@
        }),
{
}

/// A setting whose value can be read has that value: assigning any value to a key, whatever
/// else is assigned, gives the setting of that name its number or fraction.
pub proof fn readable_values_are_taken(m: Map<Seq<char>, Seq<char>>, v: Seq<char>)
    ensures
        ({
            let set = |k: Seq<char>| settings_of(m.insert(k, v));
            &&& text::unsigned_value(v, 255) matches Some(n) ==> set(
                "lightgun_recoil_intensity"@,
            ).lightgun_recoil_intensity == n
            &&& text::unsigned_value(v, u64::MAX as int) matches Some(n) ==> {
                &&& set("lightgun_recoil_duration_ms"@).lightgun_recoil_duration_ms == n
                &&& set("lightgun_rapidfire_interval_ms"@).lightgun_rapidfire_interval_ms == n
            }
            &&& text::is_decimal(v) ==> {
                &&& set("lightgun_sensitivity"@).lightgun_sensitivity == v
                &&& set("lightgun_accel_threshold"@).lightgun_accel_threshold == v
                &&& set("lightgun_accel_gain"@).lightgun_accel_gain == v
                &&& set("lightgun_translation_gain"@).lightgun_translation_gain == v
                &&& set("lightgun_translation_decay"@).lightgun_translation_decay == v
            }
            &&& set("recoil_mode"@).recoil_mode == if v == "rapid_fire"@ {
                SavedRecoilMode::RapidFire
            } else if v == "off"@ {
                SavedRecoilMode::Off
            } else {
                SavedRecoilMode::SingleKick
            }
        }),
{
    text::lemma_value_in_range(v, 255);
    text::lemma_value_in_range(v, u64::MAX as int);
    lemma_mode_is_value(SavedRecoilMode::Off);
}

/// A light has the colour that its three keys assign, red, green and blue.
pub proof fn readable_colours_are_taken(
    m: Map<Seq<char>, Seq<char>>,
    r: Seq<char>,
    g: Seq<char>,
    b: Seq<char>,
)
    requires
        text::unsigned_value(r, 255) is Some,
        text::unsigned_value(g, 255) is Some,
        text::unsigned_value(b, 255) is Some,
    ensures
        ({
            let pad = settings_of(
                m.insert("lightgun_led_r"@, r).insert("lightgun_led_g"@, g).insert(
                    "lightgun_led_b"@,
                    b,
                ),
            );
            let raw = settings_of(
                m.insert("lightgun_raw_led_r"@, r).insert("lightgun_raw_led_g"@, g).insert(
                    "lightgun_raw_led_b"@,
                    b,
                ),
            );
            &&& Some(pad.lightgun_led.0 as int) == text::unsigned_value(r, 255)
            &&& Some(pad.lightgun_led.1 as int) == text::unsigned_value(g, 255)
            &&& Some(pad.lightgun_led.2 as int) == text::unsigned_value(b, 255)
            &&& Some(raw.lightgun_raw_led.0 as int) == text::unsigned_value(r, 255)
            &&& Some(raw.lightgun_raw_led.1 as int) == text::unsigned_value(g, 255)
            &&& Some(raw.lightgun_raw_led.2 as int) == text::unsigned_value(b, 255)
        }),
{
    lemma_keys();
    text::lemma_value_in_range(r, 255);
    text::lemma_value_in_range(g, 255);
    text::lemma_value_in_range(b, 255);
}

/// A file is read line by line: what the parts before and after the end of a line assign is
/// what each assigns by itself, the later part over the earlier one.
pub proof fn files_are_read_line_by_line(a: Seq<char>, b: Seq<char>)
    ensures
        file_assignments(a.push('\n') + b) == file_assignments(a).union_prefer_right(
            file_assignments(b),
        ),
{
    text::texts_are_cut_apart(a, b, '\n');
    later_lines_hold(text::pieces(a, '\n'), text::pieces(b, '\n'));
}

/// A file of one line assigns what the line does.
pub proof fn one_line_assigns_its_pair(line: Seq<char>)
    requires
        forall|i: int| 0 <= i < line.len() ==> #[trigger] line[i] != '\n',
    ensures
        file_assignments(line) == match assignment(line) {
            Some((k, v)) => Map::empty().insert(k, v),
            None => Map::<Seq<char>, Seq<char>>::empty(),
        },
{
    let none = Seq::<char>::empty();
    text::lemma_pieces_extend(none, line, '\n');
    assert(none + line =~= line);
    assert(text::pieces(line, '\n') =~= seq![line]);
    assert(seq![line].drop_last() =~= Seq::<Seq<char>>::empty());
    reveal_with_fuel(assignments, 2);
}

/// What is saved is what is displayed: loading gives every displayed fraction back under its
/// own setting, and every other setting as it was.
pub proof fn displayed_fractions_are_saved(v: ConfigView, shown: FractionsView)
    requires
        v.showing(shown).wf(),
    ensures
        ({
            let c = loaded(saved(v.showing(shown)));
            &&& c.lightgun_sensitivity == shown.lightgun_sensitivity
            &&& c.lightgun_accel_threshold == shown.lightgun_accel_threshold
            &&& c.lightgun_accel_gain == shown.lightgun_accel_gain
            &&& c.lightgun_translation_gain == shown.lightgun_translation_gain
            &&& c.lightgun_translation_decay == shown.lightgun_translation_decay
            &&& c.recoil_mode == v.recoil_mode
            &&& c.lightgun_recoil_intensity == v.lightgun_recoil_intensity
            &&& c.lightgun_recoil_duration_ms == v.lightgun_recoil_duration_ms
            &&& c.lightgun_rapidfire_interval_ms == v.lightgun_rapidfire_interval_ms
            &&& c.lightgun_led == v.lightgun_led
            &&& c.lightgun_raw_led == v.lightgun_raw_led
        }),
{
    saved_settings_read_back(v.showing(shown));
}

} // verus!
