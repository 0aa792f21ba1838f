//! The persisted settings: their text format, how a settings file is read
//! back, and how intervals are kept within bounds.
use vstd::prelude::*;
use vstd::string::StringExecFns;

use crate::app::App;
use crate::text::{
    all_digits, bool_text, chars_of, decimal, digit_value, digits_value, find_char, find_in,
    is_digit, is_ws, lemma_decimal, lemma_find_char, lemma_lines_last, lemma_lines_step,
    lemma_find_char_at, lemma_find_char_before, lemma_find_char_bound, lemma_trim_strip_cr,
    lemma_trim_unchanged, lines, trim_end, trim_start, parse_bool, parse_bool_range, push_decimal,
    range_equals, strip_cr, trim, trim_range,
};

verus! {

/// Mouse interval used when none is configured, in seconds.
pub const DEFAULT_MOUSE_INTERVAL_SECS: u64 = 5;

/// Key interval used when none is configured, in seconds.
pub const DEFAULT_KEY_INTERVAL_SECS: u64 = 10;

/// The largest interval accepted, in seconds; the smallest is one second.
pub const MAX_INTERVAL_SECS: u64 = 3600;

/// Name of the settings file, kept beside the executable.
pub const SETTINGS_FILE_NAME: &'static str = "mouse_shaker_settings.conf";

/// The settings that survive a restart.
#[derive(Clone, Copy, Debug, PartialEq, Eq, Structural)]
pub struct PersistedSettings {
    pub mouse_interval_secs: u64,
    pub key_interval_secs: u64,
    pub tray_menu_on_left_click: bool,
}

/// The settings used when nothing was saved.
pub open spec fn default_settings() -> PersistedSettings {
    PersistedSettings {
        mouse_interval_secs: DEFAULT_MOUSE_INTERVAL_SECS,
        key_interval_secs: DEFAULT_KEY_INTERVAL_SECS,
        tray_menu_on_left_click: false,
    }
}

impl Default for PersistedSettings {
    fn default() -> (s: Self)
        ensures
            s == default_settings(),
    {
        PersistedSettings {
            mouse_interval_secs: DEFAULT_MOUSE_INTERVAL_SECS,
            key_interval_secs: DEFAULT_KEY_INTERVAL_SECS,
            tray_menu_on_left_click: false,
        }
    }
}

/// `v` clamped to `1..=MAX_INTERVAL_SECS`.
pub open spec fn clamp_interval(v: u64) -> u64 {
    if v < 1 {
        1
    } else if v > MAX_INTERVAL_SECS {
        MAX_INTERVAL_SECS
    } else {
        v
    }
}

/// An interval within `1..=MAX_INTERVAL_SECS`.
pub open spec fn interval_in_range(v: u64) -> bool {
    1 <= v <= MAX_INTERVAL_SECS
}

impl PersistedSettings {
    /// The same settings with both intervals clamped.
    pub open spec fn sanitized(self) -> PersistedSettings {
        PersistedSettings {
            mouse_interval_secs: clamp_interval(self.mouse_interval_secs),
            key_interval_secs: clamp_interval(self.key_interval_secs),
            tray_menu_on_left_click: self.tray_menu_on_left_click,
        }
    }

    /// Both intervals lie within bounds.
    pub open spec fn in_range(self) -> bool {
        interval_in_range(self.mouse_interval_secs) && interval_in_range(self.key_interval_secs)
    }
}

/// An interval value as a settings file may hold it: an optional sign
/// (`+` or `-`, not alone), then one or more decimal digits, however many.
/// The number is clamped into `1..=MAX_INTERVAL_SECS`: a negative number
/// gives 1 and a number above the bounds, even one too large for any
/// integer type, gives `MAX_INTERVAL_SECS`. Any other text is no interval.
pub open spec fn parse_interval(s: Seq<char>) -> Option<u64> {
    let signed = s.len() > 1 && (s[0] == '+' || s[0] == '-');
    let d = if signed {
        s.drop_first()
    } else {
        s
    };
    if d.len() > 0 && all_digits(d) {
        if signed && s[0] == '-' {
            Some(1)
        } else if digits_value(d) > MAX_INTERVAL_SECS {
            Some(MAX_INTERVAL_SECS)
        } else {
            Some(clamp_interval(digits_value(d) as u64))
        }
    } else {
        None
    }
}

/// The value of the digits `x`, held at `MAX_INTERVAL_SECS + 1` once it
/// goes beyond the bounds.
spec fn capped_value(x: Seq<char>) -> nat {
    if digits_value(x) > MAX_INTERVAL_SECS {
        (MAX_INTERVAL_SECS + 1) as nat
    } else {
        digits_value(x)
    }
}

/// What one line of a settings file does to the settings read so far.
/// The line is trimmed; an empty line, a line starting with `#` and a line
/// without `=` change nothing. Otherwise the text before the first `=` is
/// the key and the text after it the value, both trimmed. A known key with
/// a value that parses sets its field (an interval by `parse_interval`,
/// the flag as `true` or `false`); anything else changes nothing.
pub open spec fn apply_line(st: PersistedSettings, raw: Seq<char>) -> PersistedSettings {
    let line = trim(raw);
    let eq = find_char(line, '=');
    if line.len() == 0 || line[0] == '#' || eq >= line.len() {
        st
    } else {
        let key = trim(line.take(eq as int));
        let value = trim(line.skip((eq + 1) as int));
        if key == "mouse_interval_secs"@ {
            match parse_interval(value) {
                Some(n) => PersistedSettings {
                    mouse_interval_secs: n,
                    key_interval_secs: st.key_interval_secs,
                    tray_menu_on_left_click: st.tray_menu_on_left_click,
                },
                None => st,
            }
        } else if key == "key_interval_secs"@ {
            match parse_interval(value) {
                Some(n) => PersistedSettings {
                    mouse_interval_secs: st.mouse_interval_secs,
                    key_interval_secs: n,
                    tray_menu_on_left_click: st.tray_menu_on_left_click,
                },
                None => st,
            }
        } else if key == "tray_menu_on_left_click"@ {
            match parse_bool(value) {
                Some(b) => PersistedSettings {
                    mouse_interval_secs: st.mouse_interval_secs,
                    key_interval_secs: st.key_interval_secs,
                    tray_menu_on_left_click: b,
                },
                None => st,
            }
        } else {
            st
        }
    }
}

/// The lines applied in order, first to last.
pub open spec fn apply_lines(st: PersistedSettings, ls: Seq<Seq<char>>) -> PersistedSettings
    decreases ls.len(),
{
    if ls.len() == 0 {
        st
    } else {
        apply_lines(apply_line(st, ls[0]), ls.drop_first())
    }
}

/// The settings that a settings file with text `contents` holds: the
/// defaults, with each line of the file applied in turn.
pub open spec fn parsed_settings(contents: Seq<char>) -> PersistedSettings {
    apply_lines(default_settings(), lines(contents))
}

/// The text that the settings are saved as: one `key=value` line per
/// field, each ended by a line feed.
pub open spec fn serialized_settings(s: PersistedSettings) -> Seq<char> {
    "mouse_interval_secs="@ + decimal(s.mouse_interval_secs as nat) + "\n"@
        + "key_interval_secs="@ + decimal(s.key_interval_secs as nat) + "\n"@
        + "tray_menu_on_left_click="@ + bool_text(s.tray_menu_on_left_click) + "\n"@
}

/// The keys of the settings format, as characters.
struct SettingsKeys {
    mouse: Vec<char>,
    key: Vec<char>,
    tray: Vec<char>,
}

impl SettingsKeys {
    spec fn wf(&self) -> bool {
        &&& self.mouse@ == "mouse_interval_secs"@
        &&& self.key@ == "key_interval_secs"@
        &&& self.tray@ == "tray_menu_on_left_click"@
    }

    fn new() -> (k: Self)
        ensures
            k.wf(),
    {
        SettingsKeys {
            mouse: chars_of("mouse_interval_secs"),
            key: chars_of("key_interval_secs"),
            tray: chars_of("tray_menu_on_left_click"),
        }
    }
}

/// The interval that `cs[lo..hi]` gives, by `parse_interval`.
fn parse_interval_range(cs: &Vec<char>, lo: usize, hi: usize) -> (r: Option<u64>)
    requires
        lo <= hi <= cs@.len(),
    ensures
        r == parse_interval(cs@.subrange(lo as int, hi as int)),
{
    let ghost s = cs@.subrange(lo as int, hi as int);
    let mut p = lo;
    let mut negative = false;
    if hi - lo > 1 && (cs[lo] == '+' || cs[lo] == '-') {
        negative = cs[lo] == '-';
        p = lo + 1;
        assert(s.drop_first() =~= cs@.subrange(p as int, hi as int));
    } else {
        assert(s =~= cs@.subrange(p as int, hi as int));
    }
    let ghost signed = s.len() > 1 && (s[0] == '+' || s[0] == '-');
    let ghost d = cs@.subrange(p as int, hi as int);
    assert(d == (if signed {
        s.drop_first()
    } else {
        s
    }));
    assert(negative == (signed && s[0] == '-'));
    if p == hi {
        return None;
    }
    let mut v: u64 = 0;
    let mut k = p;
    assert(d.take(0) =~= Seq::<char>::empty());
    while k < hi
        invariant
            lo <= p <= k <= hi <= cs@.len(),
            d == cs@.subrange(p as int, hi as int),
            s == cs@.subrange(lo as int, hi as int),
            signed == (s.len() > 1 && (s[0] == '+' || s[0] == '-')),
            d == (if signed {
                s.drop_first()
            } else {
                s
            }),
            negative == (signed && s[0] == '-'),
            d.len() > 0,
            all_digits(d.take(k - p)),
            v == capped_value(d.take(k - p)),
        decreases hi - k,
    {
        let c = cs[k];
        let u = c as u32;
        if u < 48 || u > 57 {
            assert(d[k - p] == c);
            assert(!is_digit(d[k - p]));
            return None;
        }
        let digit = (u - 48) as u64;
        let ghost t = d.take(k - p + 1);
        assert(t.drop_last() =~= d.take(k - p));
        assert(t.last() == c);
        assert(digit_value(c) == digit);
        assert forall|i: int| 0 <= i < t.len() implies is_digit(#[trigger] t[i]) by {
            if i < t.len() - 1 {
                assert(t[i] == d.take(k - p)[i]);
            }
        }
        assert(digits_value(t) == digits_value(d.take(k - p)) * 10 + digit);
        if v <= MAX_INTERVAL_SECS {
            v = v * 10 + digit;
            if v > MAX_INTERVAL_SECS {
                v = MAX_INTERVAL_SECS + 1;
            }
        }
        k = k + 1;
    }
    assert(d.take(d.len() as int) =~= d);
    if negative {
        Some(1)
    } else if v > MAX_INTERVAL_SECS {
        Some(MAX_INTERVAL_SECS)
    } else {
        Some(App::sanitize_interval_secs(v))
    }
}

/// Applies the line `cs[lo..hi]` to `st`.
fn apply_settings_line(
    cs: &Vec<char>,
    lo: usize,
    hi: usize,
    st: PersistedSettings,
    keys: &SettingsKeys,
) -> (r: PersistedSettings)
    requires
        lo <= hi <= cs@.len(),
        keys.wf(),
    ensures
        r == apply_line(st, cs@.subrange(lo as int, hi as int)),
{
    let ghost raw = cs@.subrange(lo as int, hi as int);
    let (a, b) = trim_range(cs, lo, hi);
    let ghost line = cs@.subrange(a as int, b as int);
    if a == b {
        return st;
    }
    if cs[a] == '#' {
        assert(line[0] == '#');
        return st;
    }
    let e = find_in(cs, a, b, '=');
    if e == b {
        return st;
    }
    assert(line.take(e - a) =~= cs@.subrange(a as int, e as int));
    assert(line.skip(e - a + 1) =~= cs@.subrange(e + 1, b as int));
    let (ka, kb) = trim_range(cs, a, e);
    let (va, vb) = trim_range(cs, e + 1, b);
    if range_equals(cs, ka, kb, &keys.mouse) {
        match parse_interval_range(cs, va, vb) {
            Some(n) => PersistedSettings {
                mouse_interval_secs: n,
                key_interval_secs: st.key_interval_secs,
                tray_menu_on_left_click: st.tray_menu_on_left_click,
            },
            None => st,
        }
    } else if range_equals(cs, ka, kb, &keys.key) {
        match parse_interval_range(cs, va, vb) {
            Some(n) => PersistedSettings {
                mouse_interval_secs: st.mouse_interval_secs,
                key_interval_secs: n,
                tray_menu_on_left_click: st.tray_menu_on_left_click,
            },
            None => st,
        }
    } else if range_equals(cs, ka, kb, &keys.tray) {
        match parse_bool_range(cs, va, vb) {
            Some(b) => PersistedSettings {
                mouse_interval_secs: st.mouse_interval_secs,
                key_interval_secs: st.key_interval_secs,
                tray_menu_on_left_click: b,
            },
            None => st,
        }
    } else {
        st
    }
}

impl App {
    /// Clamps an interval to `1..=MAX_INTERVAL_SECS` seconds.
    pub fn sanitize_interval_secs(value: u64) -> (r: u64)
        ensures
            r == clamp_interval(value),
            interval_in_range(r),
            interval_in_range(value) ==> r == value,
    {
        if value < 1 {
            1
        } else if value > MAX_INTERVAL_SECS {
            MAX_INTERVAL_SECS
        } else {
            value
        }
    }

    /// Reads settings from the text of a settings file. Lines are
    /// `key=value`; blank lines, `#` comments, lines without `=`, unknown
    /// keys and values that do not parse are skipped; intervals are
    /// clamped; a field that no line sets keeps its default.
    pub fn parse_settings(contents: &str) -> (settings: PersistedSettings)
        ensures
            settings == parsed_settings(contents@),
            settings.in_range(),
    {
        let cs = chars_of(contents);
        let keys = SettingsKeys::new();
        let mut settings = PersistedSettings::default();
        let mut start: usize = 0;
        let mut i: usize = 0;
        assert(cs@.skip(0) =~= cs@);
        while i < cs.len()
            invariant
                cs@ == contents@,
                keys.wf(),
                0 <= start <= i <= cs@.len(),
                forall|j: int| start <= j < i ==> #[trigger] cs@[j] != '\n',
                apply_lines(settings, lines(cs@.skip(start as int))) == parsed_settings(cs@),
            decreases cs@.len() - i,
        {
            if cs[i] == '\n' {
                proof {
                    let x = cs@.skip(start as int);
                    let k = i - start;
                    assert forall|j: int| 0 <= j < k implies #[trigger] x[j] != '\n' by {
                        assert(x[j] == cs@[start + j]);
                    }
                    lemma_lines_step(x, k);
                    assert(x.take(k) =~= cs@.subrange(start as int, i as int));
                    assert(x.skip(k + 1) =~= cs@.skip(i + 1));
                    let line = cs@.subrange(start as int, i as int);
                    lemma_apply_line_strip_cr(settings, line);
                    let ls = seq![strip_cr(x.take(k))] + lines(x.skip(k + 1));
                    assert(ls[0] == strip_cr(line));
                    assert(ls.drop_first() =~= lines(cs@.skip(i + 1)));
                }
                settings = apply_settings_line(&cs, start, i, settings, &keys);
                start = i + 1;
            }
            i = i + 1;
        }
        if start < cs.len() {
            proof {
                let x = cs@.skip(start as int);
                assert forall|j: int| 0 <= j < x.len() implies #[trigger] x[j] != '\n' by {
                    assert(x[j] == cs@[start + j]);
                }
                lemma_lines_last(x);
                assert(x =~= cs@.subrange(start as int, cs@.len() as int));
                assert(seq![x].drop_first() =~= Seq::<Seq<char>>::empty());
                assert(seq![x][0] == x);
                let after = apply_line(settings, x);
                assert(apply_lines(after, Seq::<Seq<char>>::empty()) == after);
                assert(apply_lines(settings, seq![x]) == after);
            }
            settings = apply_settings_line(&cs, start, cs.len(), settings, &keys);
        } else {
            assert(cs@.skip(start as int) =~= Seq::<char>::empty());
            assert(lines(Seq::<char>::empty()) =~= Seq::<Seq<char>>::empty());
            assert(apply_lines(settings, Seq::<Seq<char>>::empty()) == settings);
        }
        proof {
            law_parsed_settings_in_range(contents@);
        }
        settings
    }

    /// The text that `settings` are saved as.
    pub fn serialize_settings(settings: PersistedSettings) -> (text: String)
        ensures
            text@ == serialized_settings(settings),
    {
        let mut text = String::new();
        text.append("mouse_interval_secs=");
        push_decimal(&mut text, settings.mouse_interval_secs);
        text.append("\n");
        text.append("key_interval_secs=");
        push_decimal(&mut text, settings.key_interval_secs);
        text.append("\n");
        text.append("tray_menu_on_left_click=");
        if settings.tray_menu_on_left_click {
            text.append("true");
        } else {
            text.append("false");
        }
        text.append("\n");
        text
    }

    /// The settings to start with, given the text of the settings file, or
    /// `None` where it could not be read: the defaults then.
    pub fn settings_from_read(contents: Option<&str>) -> (settings: PersistedSettings)
        ensures
            settings == match contents {
                Some(c) => parsed_settings(c@),
                None => default_settings(),
            },
    {
        match contents {
            Some(c) => Self::parse_settings(c),
            None => PersistedSettings::default(),
        }
    }
}

// ---------------------------------------------------------------------------
// Proofs
// ---------------------------------------------------------------------------

/// A `'\r'` ending a line changes nothing about what the line does.
pub proof fn lemma_apply_line_strip_cr(st: PersistedSettings, raw: Seq<char>)
    ensures
        apply_line(st, strip_cr(raw)) == apply_line(st, raw),
{
    lemma_trim_strip_cr(raw);
}

/// Reading a settings file always yields intervals within bounds, whatever
/// the file holds.
pub proof fn law_parsed_settings_in_range(contents: Seq<char>)
    ensures
        parsed_settings(contents).in_range(),
{
    lemma_apply_lines_in_range(default_settings(), lines(contents));
}

proof fn lemma_apply_lines_in_range(st: PersistedSettings, ls: Seq<Seq<char>>)
    requires
        st.in_range(),
    ensures
        apply_lines(st, ls).in_range(),
    decreases ls.len(),
{
    if ls.len() > 0 {
        lemma_apply_lines_in_range(apply_line(st, ls[0]), ls.drop_first());
    }
}

/// A `key=value` line whose key holds no `=` and neither key nor value
/// has whitespace at its ends: trimming keeps it whole and it splits at
/// the `=` that follows the key.
proof fn lemma_key_value_line(key: Seq<char>, value: Seq<char>)
    requires
        key.len() > 0,
        value.len() > 0,
        !is_ws(key[0]),
        !is_ws(key.last()),
        !is_ws(value[0]),
        !is_ws(value.last()),
        forall|i: int| 0 <= i < key.len() ==> #[trigger] key[i] != '=',
        key[0] != '#',
    ensures
        ({
            let line = key + seq!['='] + value;
            let eq = find_char(trim(line), '=');
            &&& trim(line) == line
            &&& eq == key.len()
            &&& trim(line).len() > 0
            &&& trim(line)[0] != '#'
            &&& trim(line.take(eq as int)) == key
            &&& trim(line.skip((eq + 1) as int)) == value
        }),
{
    let line = key + seq!['='] + value;
    assert(line[0] == key[0]);
    assert(line.last() == value.last());
    lemma_trim_unchanged(line);
    lemma_find_char(line, '=', key.len() as int);
    assert(line.take(key.len() as int) =~= key);
    assert(line.skip((key.len() + 1) as int) =~= value);
    lemma_trim_unchanged(key);
    lemma_trim_unchanged(value);
}

/// A line ended by a line feed, then the rest of the text.
proof fn lemma_lines_cons(a: Seq<char>, rest: Seq<char>)
    requires
        forall|i: int| 0 <= i < a.len() ==> #[trigger] a[i] != '\n',
    ensures
        lines(a + seq!['\n'] + rest) == seq![strip_cr(a)] + lines(rest),
{
    let s = a + seq!['\n'] + rest;
    assert forall|i: int| 0 <= i < a.len() implies #[trigger] s[i] != '\n' by {
        assert(s[i] == a[i]);
    }
    lemma_lines_step(s, a.len() as int);
    assert(s.take(a.len() as int) =~= a);
    assert(s.skip((a.len() + 1) as int) =~= rest);
}

/// Saved settings read back as the same settings, with intervals clamped
/// into bounds: for settings within bounds, reading what was saved gives
/// back exactly what was saved.
pub proof fn law_serialize_then_parse(s: PersistedSettings)
    ensures
        parsed_settings(serialized_settings(s)) == s.sanitized(),
        s.in_range() ==> parsed_settings(serialized_settings(s)) == s,
{
    reveal_strlit("mouse_interval_secs=");
    reveal_strlit("key_interval_secs=");
    reveal_strlit("tray_menu_on_left_click=");
    reveal_strlit("mouse_interval_secs");
    reveal_strlit("key_interval_secs");
    reveal_strlit("tray_menu_on_left_click");
    reveal_strlit("\n");
    reveal_strlit("true");
    reveal_strlit("false");
    let mk = "mouse_interval_secs"@;
    let kk = "key_interval_secs"@;
    let tk = "tray_menu_on_left_click"@;
    let m = decimal(s.mouse_interval_secs as nat);
    let k = decimal(s.key_interval_secs as nat);
    let b = bool_text(s.tray_menu_on_left_click);
    lemma_decimal(s.mouse_interval_secs as nat);
    lemma_decimal(s.key_interval_secs as nat);
    let la = mk + seq!['='] + m;
    let lb = kk + seq!['='] + k;
    let lc = tk + seq!['='] + b;
    let nl = seq!['\n'];
    assert("mouse_interval_secs="@ =~= mk + seq!['=']);
    assert("key_interval_secs="@ =~= kk + seq!['=']);
    assert("tray_menu_on_left_click="@ =~= tk + seq!['=']);
    assert("\n"@ =~= nl);
    let tail_c = lc + nl + Seq::<char>::empty();
    let tail_b = lb + nl + tail_c;
    let text = la + nl + tail_b;
    assert(serialized_settings(s) =~= text);

    // No line feed inside a line; no '\r' or whitespace at a line's end.
    assert(is_digit(m[0]) && is_digit(m.last()) && is_digit(k[0]) && is_digit(k.last()));
    assert forall|i: int| 0 <= i < la.len() implies #[trigger] la[i] != '\n' by {
        if i >= mk.len() + 1 {
            assert(is_digit(m[i - mk.len() - 1]));
        }
    }
    assert forall|i: int| 0 <= i < lb.len() implies #[trigger] lb[i] != '\n' by {
        if i >= kk.len() + 1 {
            assert(is_digit(k[i - kk.len() - 1]));
        }
    }
    assert forall|i: int| 0 <= i < lc.len() implies #[trigger] lc[i] != '\n' by {
    }
    lemma_lines_cons(lc, Seq::<char>::empty());
    lemma_lines_cons(lb, tail_c);
    lemma_lines_cons(la, tail_b);
    assert(la.last() == m.last());
    assert(lb.last() == k.last());
    assert(lc.last() == b.last());
    assert(strip_cr(la) == la);
    assert(strip_cr(lb) == lb);
    assert(strip_cr(lc) == lc);
    assert(lines(Seq::<char>::empty()) =~= Seq::<Seq<char>>::empty());
    let ls = seq![la] + (seq![lb] + (seq![lc] + Seq::<Seq<char>>::empty()));
    assert(lines(text) == ls);

    // Each line sets its own field.
    lemma_key_value_line(mk, m);
    lemma_key_value_line(kk, k);
    lemma_key_value_line(tk, b);
    assert(!(m[0] == '+' || m[0] == '-'));
    assert(!(k[0] == '+' || k[0] == '-'));
    assert(parse_interval(m) == Some(clamp_interval(s.mouse_interval_secs)));
    assert(parse_interval(k) == Some(clamp_interval(s.key_interval_secs)));
    assert(parse_bool(b) == Some(s.tray_menu_on_left_click));
    let st0 = default_settings();
    let st1 = apply_line(st0, la);
    let st2 = apply_line(st1, lb);
    let st3 = apply_line(st2, lc);
    assert(st1.mouse_interval_secs == clamp_interval(s.mouse_interval_secs));
    assert(kk != mk);
    assert(st2.key_interval_secs == clamp_interval(s.key_interval_secs));
    assert(tk != mk && tk != kk);
    assert(st3 == s.sanitized());
    assert(ls[0] == la);
    assert(ls.drop_first() =~= seq![lb] + (seq![lc] + Seq::<Seq<char>>::empty()));
    assert((seq![lb] + (seq![lc] + Seq::<Seq<char>>::empty()))[0] == lb);
    assert((seq![lb] + (seq![lc] + Seq::<Seq<char>>::empty())).drop_first() =~= seq![lc]);
    assert(seq![lc][0] == lc);
    assert(seq![lc].drop_first() =~= Seq::<Seq<char>>::empty());
    assert(apply_lines(st3, Seq::<Seq<char>>::empty()) == st3);
    assert(apply_lines(st2, seq![lc]) == st3);
    assert(apply_lines(st1, seq![lb] + (seq![lc] + Seq::<Seq<char>>::empty())) == st3);
    assert(apply_lines(st0, ls) == st3);
}

/// A line that the settings reader skips: blank once trimmed, a `#`
/// comment, without `=`, or with a key other than the three known ones.
pub open spec fn is_skipped_line(raw: Seq<char>) -> bool {
    let line = trim(raw);
    let eq = find_char(line, '=');
    ||| line.len() == 0
    ||| line[0] == '#'
    ||| eq >= line.len()
    ||| {
        let key = trim(line.take(eq as int));
        &&& key != "mouse_interval_secs"@
        &&& key != "key_interval_secs"@
        &&& key != "tray_menu_on_left_click"@
    }
}

/// A line that the settings reader ignores: a skipped line, or a line
/// with a known key whose value does not parse (no interval for an
/// interval key, neither `true` nor `false` for the tray flag).
pub open spec fn is_ignored_line(raw: Seq<char>) -> bool {
    let line = trim(raw);
    let eq = find_char(line, '=');
    let key = trim(line.take(eq as int));
    let value = trim(line.skip((eq + 1) as int));
    ||| is_skipped_line(raw)
    ||| (key == "mouse_interval_secs"@ || key == "key_interval_secs"@) && parse_interval(
        value,
    ) is None
    ||| key == "tray_menu_on_left_click"@ && parse_bool(value) is None
}

/// An ignored line leaves the settings read so far as they are, whatever
/// they are; so a settings file that starts with such a line reads as the
/// rest of it.
pub proof fn law_skipped_line_changes_nothing(st: PersistedSettings, raw: Seq<char>, rest: Seq<char>)
    requires
        is_ignored_line(raw),
        forall|i: int| 0 <= i < raw.len() ==> #[trigger] raw[i] != '\n',
    ensures
        apply_line(st, raw) == st,
        parsed_settings(raw + seq!['\n'] + rest) == parsed_settings(rest),
{
    lemma_ignored_line(st, raw);
    lemma_ignored_line(default_settings(), raw);
    lemma_lines_cons(raw, rest);
    lemma_apply_line_strip_cr(default_settings(), raw);
    let ls = seq![strip_cr(raw)] + lines(rest);
    assert(ls[0] == strip_cr(raw));
    assert(ls.drop_first() =~= lines(rest));
}

/// An ignored line changes nothing, whatever the settings read so far.
proof fn lemma_ignored_line(st: PersistedSettings, raw: Seq<char>)
    requires
        is_ignored_line(raw),
    ensures
        apply_line(st, raw) == st,
{
    reveal_strlit("mouse_interval_secs");
    reveal_strlit("key_interval_secs");
    reveal_strlit("tray_menu_on_left_click");
    assert("mouse_interval_secs"@.len() != "key_interval_secs"@.len());
    assert("mouse_interval_secs"@.len() != "tray_menu_on_left_click"@.len());
    assert("key_interval_secs"@.len() != "tray_menu_on_left_click"@.len());
}

/// A text that holds no line feed does what its one line does (nothing,
/// when it is empty).
proof fn lemma_single_line(st: PersistedSettings, l: Seq<char>)
    requires
        forall|i: int| 0 <= i < l.len() ==> #[trigger] l[i] != '\n',
    ensures
        apply_lines(st, lines(l)) == apply_line(st, l),
{
    if l.len() == 0 {
        assert(lines(l) =~= Seq::<Seq<char>>::empty());
        assert(l =~= Seq::<char>::empty());
        lemma_empty_line(st);
    } else {
        lemma_lines_last(l);
        let next = apply_line(st, l);
        assert(seq![l][0] == l);
        assert(seq![l].drop_first() =~= Seq::<Seq<char>>::empty());
        assert(apply_lines(next, Seq::<Seq<char>>::empty()) == next);
    }
}

/// An empty line changes nothing.
proof fn lemma_empty_line(st: PersistedSettings)
    ensures
        apply_line(st, Seq::<char>::empty()) == st,
{
    assert(trim_start(Seq::<char>::empty()) =~= Seq::<char>::empty());
    assert(trim_end(Seq::<char>::empty()) =~= Seq::<char>::empty());
}

/// Appending a line feed and a line `l` to `s` applies `l` after the
/// lines of `s`, from any settings.
proof fn lemma_append_line(st: PersistedSettings, s: Seq<char>, l: Seq<char>)
    requires
        forall|i: int| 0 <= i < l.len() ==> #[trigger] l[i] != '\n',
    ensures
        apply_lines(st, lines(s + seq!['\n'] + l)) == apply_line(apply_lines(st, lines(s)), l),
    decreases s.len(),
{
    let t = s + seq!['\n'] + l;
    let k = find_char(s, '\n');
    if s.len() == 0 {
        // The text is a line feed, then `l`.
        assert(t[0] == '\n');
        lemma_lines_step(t, 0);
        assert(t.take(0) =~= Seq::<char>::empty());
        assert(t.skip(1) =~= l);
        assert(strip_cr(Seq::<char>::empty()) =~= Seq::<char>::empty());
        lemma_empty_line(st);
        let ls = seq![strip_cr(t.take(0))] + lines(l);
        assert(ls[0] == Seq::<char>::empty());
        assert(ls.drop_first() =~= lines(l));
        lemma_single_line(st, l);
        assert(lines(s) =~= Seq::<Seq<char>>::empty());
    } else {
        lemma_find_char_bound(s, '\n');
        if k < s.len() {
            // `s` holds a line feed: its first line is the first line of `t`.
            let kk = k as int;
            lemma_find_char_at(s, '\n');
            assert forall|i: int| 0 <= i < kk implies #[trigger] s[i] != '\n' by {
                lemma_find_char_before(s, '\n', i);
            }
            assert forall|i: int| 0 <= i < kk implies #[trigger] t[i] != '\n' by {
                assert(t[i] == s[i]);
            }
            assert(t[kk] == s[kk]);
            lemma_lines_step(t, kk);
            lemma_lines_step(s, kk);
            let rest = s.skip(kk + 1);
            assert(t.take(kk) =~= s.take(kk));
            assert(t.skip(kk + 1) =~= rest + seq!['\n'] + l);
            let first = strip_cr(s.take(kk));
            let next = apply_line(st, first);
            lemma_append_line(next, rest, l);
            let lt = seq![first] + lines(rest + seq!['\n'] + l);
            let ls = seq![first] + lines(rest);
            assert(lt[0] == first && ls[0] == first);
            assert(lt.drop_first() =~= lines(rest + seq!['\n'] + l));
            assert(ls.drop_first() =~= lines(rest));
        } else {
            // `s` is one line, now ended by a line feed.
            assert forall|i: int| 0 <= i < s.len() implies #[trigger] s[i] != '\n' by {
                lemma_find_char_before(s, '\n', i);
            }
            assert forall|i: int| 0 <= i < s.len() implies #[trigger] t[i] != '\n' by {
                assert(t[i] == s[i]);
            }
            lemma_lines_step(t, s.len() as int);
            lemma_lines_last(s);
            assert(t.take(s.len() as int) =~= s);
            assert(t.skip((s.len() + 1) as int) =~= l);
            lemma_apply_line_strip_cr(st, s);
            let next = apply_line(st, s);
            lemma_single_line(next, l);
            let lt = seq![strip_cr(s)] + lines(l);
            assert(lt[0] == strip_cr(s));
            assert(lt.drop_first() =~= lines(l));
            assert(seq![s][0] == s);
            assert(seq![s].drop_first() =~= Seq::<Seq<char>>::empty());
            assert(apply_lines(next, Seq::<Seq<char>>::empty()) == next);
        }
    }
}

/// Lines are read in order, each applied to what the lines before it
/// gave: a settings file made of one line reads as that line applied to
/// the defaults, and a line added at the end of a file, after a line feed,
/// applies to what the file read as before.
pub proof fn law_lines_apply_in_order(s: Seq<char>, l: Seq<char>)
    requires
        forall|i: int| 0 <= i < l.len() ==> #[trigger] l[i] != '\n',
    ensures
        parsed_settings(l) == apply_line(default_settings(), l),
        parsed_settings(s + seq!['\n'] + l) == apply_line(parsed_settings(s), l),
{
    lemma_single_line(default_settings(), l);
    lemma_append_line(default_settings(), s, l);
}

/// An ignored line changes nothing wherever it stands: a settings file with
/// such a line added at its end, after a line feed, reads as before.
pub proof fn law_ignored_line_appended(s: Seq<char>, l: Seq<char>)
    requires
        is_ignored_line(l),
        forall|i: int| 0 <= i < l.len() ==> #[trigger] l[i] != '\n',
    ensures
        parsed_settings(s + seq!['\n'] + l) == parsed_settings(s),
{
    law_lines_apply_in_order(s, l);
    lemma_ignored_line(parsed_settings(s), l);
}

/// The key of a settings line: the trimmed text before the first `=` of
/// the trimmed line; `None` for a blank line, a `#` comment or a line
/// without `=`.
pub open spec fn line_key(raw: Seq<char>) -> Option<Seq<char>> {
    let line = trim(raw);
    let eq = find_char(line, '=');
    if line.len() == 0 || line[0] == '#' || eq >= line.len() {
        None
    } else {
        Some(trim(line.take(eq as int)))
    }
}

/// The value of a settings line: the trimmed text after the first `=` of
/// the trimmed line.
pub open spec fn line_value(raw: Seq<char>) -> Seq<char> {
    let line = trim(raw);
    trim(line.skip((find_char(line, '=') + 1) as int))
}

/// A line changes only the field that its key names, and only to what
/// its value gives: a line with the mouse key sets the mouse interval to
/// the (clamped) interval of its value, or leaves it where the value is
/// no interval; likewise for the key interval and the tray flag. Every
/// field whose key the line does not hold keeps its value.
pub proof fn law_line_sets_only_its_field(st: PersistedSettings, raw: Seq<char>)
    ensures
        ({
            let r = apply_line(st, raw);
            let k = line_key(raw);
            let v = line_value(raw);
            &&& k != Some("mouse_interval_secs"@) ==> r.mouse_interval_secs == st.mouse_interval_secs
            &&& k != Some("key_interval_secs"@) ==> r.key_interval_secs == st.key_interval_secs
            &&& k != Some("tray_menu_on_left_click"@) ==> r.tray_menu_on_left_click
                == st.tray_menu_on_left_click
            &&& k == Some("mouse_interval_secs"@) ==> r.mouse_interval_secs == match parse_interval(
                v,
            ) {
                Some(n) => n,
                None => st.mouse_interval_secs,
            }
            &&& k == Some("key_interval_secs"@) ==> r.key_interval_secs == match parse_interval(v) {
                Some(n) => n,
                None => st.key_interval_secs,
            }
            &&& k == Some("tray_menu_on_left_click"@) ==> r.tray_menu_on_left_click == match parse_bool(
                v,
            ) {
                Some(b) => b,
                None => st.tray_menu_on_left_click,
            }
        }),
{
    reveal_strlit("mouse_interval_secs");
    reveal_strlit("key_interval_secs");
    reveal_strlit("tray_menu_on_left_click");
    assert("mouse_interval_secs"@.len() != "key_interval_secs"@.len());
    assert("mouse_interval_secs"@.len() != "tray_menu_on_left_click"@.len());
    assert("key_interval_secs"@.len() != "tray_menu_on_left_click"@.len());
}

/// A value that is an interval gives one within bounds.
pub proof fn law_parsed_interval_in_range(v: Seq<char>)
    ensures
        parse_interval(v) matches Some(n) ==> interval_in_range(n),
{
}

/// A field that no line of a settings file names keeps its default: a
/// file without a line for the tray flag reads with the flag off, and
/// likewise for the two intervals.
pub proof fn law_unnamed_field_keeps_default(contents: Seq<char>)
    ensures
        ({
            let ls = lines(contents);
            let r = parsed_settings(contents);
            &&& (forall|i: int| 0 <= i < ls.len() ==> line_key(#[trigger] ls[i]) != Some(
                "mouse_interval_secs"@,
            )) ==> r.mouse_interval_secs == DEFAULT_MOUSE_INTERVAL_SECS
            &&& (forall|i: int| 0 <= i < ls.len() ==> line_key(#[trigger] ls[i]) != Some(
                "key_interval_secs"@,
            )) ==> r.key_interval_secs == DEFAULT_KEY_INTERVAL_SECS
            &&& (forall|i: int| 0 <= i < ls.len() ==> line_key(#[trigger] ls[i]) != Some(
                "tray_menu_on_left_click"@,
            )) ==> !r.tray_menu_on_left_click
        }),
{
    lemma_unnamed_fields(default_settings(), lines(contents));
}

proof fn lemma_unnamed_fields(st: PersistedSettings, ls: Seq<Seq<char>>)
    ensures
        (forall|i: int| 0 <= i < ls.len() ==> line_key(#[trigger] ls[i]) != Some(
            "mouse_interval_secs"@,
        )) ==> apply_lines(st, ls).mouse_interval_secs == st.mouse_interval_secs,
        (forall|i: int| 0 <= i < ls.len() ==> line_key(#[trigger] ls[i]) != Some(
            "key_interval_secs"@,
        )) ==> apply_lines(st, ls).key_interval_secs == st.key_interval_secs,
        (forall|i: int| 0 <= i < ls.len() ==> line_key(#[trigger] ls[i]) != Some(
            "tray_menu_on_left_click"@,
        )) ==> apply_lines(st, ls).tray_menu_on_left_click == st.tray_menu_on_left_click,
    decreases ls.len(),
{
    if ls.len() > 0 {
        let next = apply_line(st, ls[0]);
        law_line_sets_only_its_field(st, ls[0]);
        lemma_unnamed_fields(next, ls.drop_first());
        assert forall|i: int| 0 <= i < ls.drop_first().len() implies #[trigger] ls.drop_first()[i]
            == ls[i + 1] by {}
    }
}

} // verus!
