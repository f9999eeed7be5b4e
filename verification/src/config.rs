use vstd::prelude::*;
use crate::decimal::{decimal_digits, decimal_int, digit_char, push_int};
use crate::text::same_text;

verus! {

/// Whole-earth display.
pub const TYPE_FULL: i32 = 0;

/// Upper-half display.
pub const TYPE_HALF: i32 = 1;

/// What the user chose: how often the wallpaper is refreshed (minutes) and
/// how the earth is shown (`TYPE_FULL` or `TYPE_HALF`).
#[derive(Clone, Copy, Debug, PartialEq, Eq, Structural)]
pub struct Config {
    pub freq: i32,
    pub show_type: i32,
}

impl Default for Config {
    /// Every 30 minutes, whole earth.
    fn default() -> (conf: Config)
        ensures
            conf == (Config { freq: 30, show_type: TYPE_FULL }),
    {
        Config { freq: 30, show_type: TYPE_FULL }
    }
}

/// An ASCII decimal digit.
pub open spec fn is_digit(c: char) -> bool {
    '0' <= c <= '9'
}

/// Every character is an ASCII decimal digit.
pub open spec fn all_digits(s: Seq<char>) -> bool {
    forall|i: int| 0 <= i < s.len() ==> #[trigger] is_digit(s[i])
}

/// The number written by a string of decimal digits.
pub open spec fn digits_value(s: Seq<char>) -> int
    decreases s.len(),
{
    if s.len() == 0 {
        0
    } else {
        digits_value(s.drop_last()) * 10 + (s.last() as int - 48)
    }
}

/// The digits of a number written with an optional leading `+` or `-`.
pub open spec fn unsigned_part(s: Seq<char>) -> Seq<char> {
    if s.len() > 0 && (s[0] == '-' || s[0] == '+') {
        s.skip(1)
    } else {
        s
    }
}

/// The value of a number written with an optional leading `+` or `-`.
pub open spec fn signed_value(s: Seq<char>) -> int {
    if s.len() > 0 && s[0] == '-' {
        -digits_value(unsigned_part(s))
    } else {
        digits_value(unsigned_part(s))
    }
}

/// What `str::parse::<i32>` gives: an optional `+` or `-`, then one or more
/// ASCII digits, with the value inside the range of `i32`; nothing otherwise.
pub open spec fn parsed_i32(s: Seq<char>) -> Option<i32> {
    if unsigned_part(s).len() > 0 && all_digits(unsigned_part(s)) && i32::MIN <= signed_value(s)
        <= i32::MAX {
        Some(signed_value(s) as i32)
    } else {
        None
    }
}

proof fn lemma_digits_value_nonneg(s: Seq<char>)
    requires
        all_digits(s),
    ensures
        digits_value(s) >= 0,
    decreases s.len(),
{
    if s.len() > 0 {
        assert(is_digit(s[s.len() - 1]));
        lemma_digits_value_nonneg(s.drop_last());
    }
}

proof fn lemma_digits_value_prefix(s: Seq<char>, i: int)
    requires
        all_digits(s),
        0 <= i <= s.len(),
    ensures
        digits_value(s.take(i)) <= digits_value(s),
    decreases s.len(),
{
    if i < s.len() {
        assert(is_digit(s[s.len() - 1]));
        assert(s.drop_last().take(i) =~= s.take(i));
        lemma_digits_value_prefix(s.drop_last(), i);
        lemma_digits_value_nonneg(s.drop_last());
    } else {
        assert(s.take(i) =~= s);
    }
}

/// Parses a decimal `i32` the way `str::parse::<i32>` does.
pub fn parse_i32(s: &str) -> (res: Option<i32>)
    ensures
        res == parsed_i32(s@),
{
    let n = s.unicode_len();
    if n == 0 {
        return None;
    }
    let first = s.get_char(0);
    let negative = first == '-';
    let start: usize = if first == '-' || first == '+' {
        1
    } else {
        0
    };
    let ghost body = unsigned_part(s@);
    if start == n {
        return None;
    }
    let mut acc: i64 = 0;
    let mut i: usize = start;
    while i < n
        invariant
            n == s@.len(),
            start <= i <= n,
            start < n,
            body == s@.skip(start as int),
            body == unsigned_part(s@),
            negative == (s@.len() > 0 && s@[0] == '-'),
            all_digits(body.take(i - start)),
            acc == digits_value(body.take(i - start)),
            0 <= acc <= 2147483648,
        decreases n - i,
    {
        let c = s.get_char(i);
        if !('0' <= c && c <= '9') {
            proof {
                assert(!is_digit(body[i - start]));
                assert(!all_digits(body));
            }
            return None;
        }
        let d = (c as u32 - 48) as i64;
        let ghost prefix = body.take(i - start);
        acc = acc * 10 + d;
        proof {
            let next = body.take(i - start + 1);
            assert(next.drop_last() =~= prefix);
            assert(next.last() == c);
            assert forall|j: int| 0 <= j < next.len() implies #[trigger] is_digit(next[j]) by {
                if j < next.len() - 1 {
                    assert(next[j] == prefix[j]);
                }
            }
        }
        i = i + 1;
        if acc > 2147483648 {
            proof {
                let done = body.take(i - start);
                if all_digits(body) {
                    assert(body.take(i - start) =~= done);
                    lemma_digits_value_prefix(body, i - start);
                    assert(digits_value(body) > 2147483648);
                }
            }
            return None;
        }
    }
    assert(body.take(n - start) =~= body);
    if negative {
        Some((-acc) as i32)
    } else if acc > 2147483647 {
        None
    } else {
        Some(acc as i32)
    }
}

proof fn lemma_decimal_digits_parse(m: nat)
    ensures
        decimal_digits(m).len() > 0,
        all_digits(decimal_digits(m)),
        digits_value(decimal_digits(m)) == m,
        is_digit(decimal_digits(m)[0]),
    decreases m,
{
    let d = decimal_digits(m);
    assert(digit_char(m % 10) as int == m % 10 + 48);
    if m < 10 {
        assert(d.drop_last() =~= Seq::<char>::empty());
        assert(is_digit(digit_char(m)));
        assert(digit_char(m) as int == m + 48);
        assert(digits_value(d.drop_last()) == 0);
        assert(digits_value(d) == m);
    } else {
        lemma_decimal_digits_parse(m / 10);
        let prefix = decimal_digits(m / 10);
        assert(d.drop_last() =~= prefix);
        assert(d.last() == digit_char(m % 10));
        assert(is_digit(digit_char(m % 10)));
        vstd::arithmetic::div_mod::lemma_fundamental_div_mod(m as int, 10);
        assert(digits_value(d) == digits_value(prefix) * 10 + (m % 10));
        assert forall|i: int| 0 <= i < d.len() implies #[trigger] is_digit(d[i]) by {
            if i < d.len() - 1 {
                assert(d[i] == prefix[i]);
            }
        }
        assert(d[0] == prefix[0]);
    }
}

/// Writing an `i32` with `{}` and parsing the text back with
/// `str::parse::<i32>` gives the same number.
pub proof fn lemma_parse_decimal_round_trip(n: i32)
    ensures
        parsed_i32(decimal_int(n as int)) == Some(n),
{
    if n < 0 {
        let m = (-n) as nat;
        lemma_decimal_digits_parse(m);
        let s = decimal_int(n as int);
        assert(s[0] == '-');
        assert(unsigned_part(s) =~= decimal_digits(m));
    } else {
        lemma_decimal_digits_parse(n as nat);
        let s = decimal_int(n as int);
        assert(is_digit(s[0]));
        assert(unsigned_part(s) =~= s);
    }
}

#[verifier::external_type_specification]
#[verifier::external_body]
pub struct ExIni(ini::Ini);

/// What an INI document answers: for a section name and a key, the value
/// that `Ini::get_from(Some(section), key)` returns.
pub uninterp spec fn ini_values(ini: ini::Ini) -> Map<(Seq<char>, Seq<char>), Seq<char>>;

/// The answers of a document that holds nothing.
pub open spec fn no_settings() -> Map<(Seq<char>, Seq<char>), Seq<char>> {
    Map::empty()
}

/// An empty INI document (`ini::Ini::new`): it answers nothing.
#[verifier::external_body]
fn ini_new() -> (doc: ini::Ini)
    ensures
        ini_values(doc) == no_settings(),
{
    ini::Ini::new()
}

/// Sets `key` to `value` in `section` with
/// `ini.with_section(Some(section)).set(key, value)`. Trusted, as the crate's
/// source shows: afterwards `get_from(Some(section), key)` answers `value`,
/// and every other question is answered as before.
#[verifier::external_body]
fn ini_set(ini: &mut ini::Ini, section: &str, key: &str, value: &str)
    ensures
        ini_values(*final(ini)) == ini_values(*old(ini)).insert((section@, key@), value@),
{
    ini.with_section(Some(section)).set(key, value);
}

/// Looks `key` up in `section` with `ini.get_from(Some(section), key)`.
#[verifier::external_body]
fn ini_get(ini: &ini::Ini, section: &str, key: &str) -> (res: Option<String>)
    ensures
        res is Some <==> ini_values(*ini).contains_key((section@, key@)),
        res matches Some(v) ==> ini_values(*ini)[(section@, key@)] == v@,
{
    match ini.get_from(Some(section), key) {
        Some(v) => Some(v.to_string()),
        None => None,
    }
}

/// The number stored under `key` in section `def`, or `default` when it is
/// missing or does not parse.
pub open spec fn setting(
    values: Map<(Seq<char>, Seq<char>), Seq<char>>,
    key: Seq<char>,
    default: i32,
) -> i32 {
    if values.contains_key(("def"@, key)) {
        match parsed_i32(values[("def"@, key)]) {
            Some(v) => v,
            None => default,
        }
    } else {
        default
    }
}

/// The configuration a settings file gives: `freq` and `show_type` from
/// section `def` (10 and 0 where missing or unreadable), or the defaults
/// when there is no file.
pub open spec fn config_from(values: Option<Map<(Seq<char>, Seq<char>), Seq<char>>>) -> Config {
    match values {
        Some(v) => Config { freq: setting(v, "freq"@, 10), show_type: setting(v, "show_type"@, 0) },
        None => Config { freq: 30, show_type: TYPE_FULL },
    }
}

/// The settings a document answers, or nothing.
pub open spec fn answers(ini: Option<&ini::Ini>) -> Option<Map<(Seq<char>, Seq<char>), Seq<char>>> {
    match ini {
        Some(i) => Some(ini_values(*i)),
        None => None,
    }
}

fn read_setting(ini: &ini::Ini, key: &str, default: i32) -> (v: i32)
    ensures
        v == setting(ini_values(*ini), key@, default),
{
    match ini_get(ini, "def", key) {
        Some(text) => match parse_i32(text.as_str()) {
            Some(v) => v,
            None => default,
        },
        None => default,
    }
}

/// Reads the configuration from the loaded settings file, or gives the
/// defaults when there is none.
pub fn read_config(ini: Option<&ini::Ini>) -> (conf: Config)
    ensures
        conf == config_from(answers(ini)),
{
    match ini {
        Some(i) => Config { freq: read_setting(i, "freq", 10), show_type: read_setting(i, "show_type", 0) },
        None => Config::default(),
    }
}

/// The settings after `conf` has been stored.
pub open spec fn stored(values: Map<(Seq<char>, Seq<char>), Seq<char>>, conf: Config) -> Map<
    (Seq<char>, Seq<char>),
    Seq<char>,
> {
    values.insert(("def"@, "freq"@), decimal_int(conf.freq as int)).insert(
        ("def"@, "show_type"@),
        decimal_int(conf.show_type as int),
    )
}

/// Stores `freq` and `show_type` in section `def`, written as `{}` writes them.
pub fn store_config(ini: &mut ini::Ini, conf: &Config)
    ensures
        ini_values(*final(ini)) == stored(ini_values(*old(ini)), *conf),
{
    let mut freq = String::new();
    push_int(&mut freq, conf.freq as i64);
    let mut show_type = String::new();
    push_int(&mut show_type, conf.show_type as i64);
    ini_set(ini, "def", "freq", freq.as_str());
    ini_set(ini, "def", "show_type", show_type.as_str());
}

/// The settings document to write for `conf`: the loaded document, or an
/// empty one when none could be loaded, with `conf` stored in it.
pub fn settings_with_config(loaded: Option<ini::Ini>, conf: &Config) -> (doc: ini::Ini)
    ensures
        ini_values(doc) == stored(
            match loaded {
                Some(l) => ini_values(l),
                None => no_settings(),
            },
            *conf,
        ),
{
    let mut doc = match loaded {
        Some(l) => l,
        None => ini_new(),
    };
    store_config(&mut doc, conf);
    doc
}

/// Reading the settings back after a configuration has been stored gives
/// that configuration, whatever else the settings held.
pub proof fn lemma_config_round_trip(values: Map<(Seq<char>, Seq<char>), Seq<char>>, conf: Config)
    ensures
        config_from(Some(stored(values, conf))) == conf,
{
    reveal_strlit("freq");
    reveal_strlit("show_type");
    assert("freq"@.len() == 4);
    assert("show_type"@.len() == 9);
    assert("freq"@ != "show_type"@);
    lemma_parse_decimal_round_trip(conf.freq);
    lemma_parse_decimal_round_trip(conf.show_type);
}

/// The configuration after one command-line argument: `freq10`, `freq20`,
/// `freq30` and `freq60` choose the refresh interval, `mode0` and `mode1` the
/// display; anything else changes nothing.
pub open spec fn with_argument(conf: Config, arg: Seq<char>) -> Config {
    if arg == "freq10"@ {
        Config { freq: 10, show_type: conf.show_type }
    } else if arg == "freq20"@ {
        Config { freq: 20, show_type: conf.show_type }
    } else if arg == "freq30"@ {
        Config { freq: 30, show_type: conf.show_type }
    } else if arg == "freq60"@ {
        Config { freq: 60, show_type: conf.show_type }
    } else if arg == "mode0"@ {
        Config { freq: conf.freq, show_type: 0 }
    } else if arg == "mode1"@ {
        Config { freq: conf.freq, show_type: 1 }
    } else {
        conf
    }
}

/// The configuration after the arguments, taken in order.
pub open spec fn with_arguments(conf: Config, args: Seq<Seq<char>>) -> Config
    decreases args.len(),
{
    if args.len() == 0 {
        conf
    } else {
        with_argument(with_arguments(conf, args.drop_last()), args.last())
    }
}

/// Applies one command-line argument.
pub fn apply_argument(conf: &mut Config, arg: &str)
    ensures
        *final(conf) == with_argument(*old(conf), arg@),
{
    if same_text(arg, "freq10") {
        conf.freq = 10;
    } else if same_text(arg, "freq20") {
        conf.freq = 20;
    } else if same_text(arg, "freq30") {
        conf.freq = 30;
    } else if same_text(arg, "freq60") {
        conf.freq = 60;
    } else if same_text(arg, "mode0") {
        conf.show_type = 0;
    } else if same_text(arg, "mode1") {
        conf.show_type = 1;
    }
}

/// Applies the command-line arguments in order.
pub fn apply_arguments(conf: &mut Config, args: &Vec<String>)
    ensures
        *final(conf) == with_arguments(*old(conf), args.deep_view()),
{
    let ghost start = *conf;
    let mut i: usize = 0;
    assert(args.deep_view().take(0) =~= Seq::<Seq<char>>::empty());
    while i < args.len()
        invariant
            i <= args.len(),
            *conf == with_arguments(start, args.deep_view().take(i as int)),
        decreases args.len() - i,
    {
        assert(args.deep_view().take(i + 1).drop_last() =~= args.deep_view().take(i as int));
        apply_argument(conf, args[i].as_str());
        i = i + 1;
    }
    assert(args.deep_view().take(args.len() as int) =~= args.deep_view());
}

/// Each interval argument `freqN` (N = 10, 20, 30, 60) sets the refresh
/// interval to N minutes and keeps the display; `mode0` and `mode1` set the
/// display and keep the interval; any other argument changes nothing.
pub proof fn lemma_argument_effects(conf: Config, arg: Seq<char>)
    ensures
        with_argument(conf, "freq10"@) == (Config { freq: 10, show_type: conf.show_type }),
        with_argument(conf, "freq20"@) == (Config { freq: 20, show_type: conf.show_type }),
        with_argument(conf, "freq30"@) == (Config { freq: 30, show_type: conf.show_type }),
        with_argument(conf, "freq60"@) == (Config { freq: 60, show_type: conf.show_type }),
        with_argument(conf, "mode0"@) == (Config { freq: conf.freq, show_type: 0 }),
        with_argument(conf, "mode1"@) == (Config { freq: conf.freq, show_type: 1 }),
        arg != "freq10"@ && arg != "freq20"@ && arg != "freq30"@ && arg != "freq60"@ && arg
            != "mode0"@ && arg != "mode1"@ ==> with_argument(conf, arg) == conf,
{
    reveal_strlit("freq10");
    reveal_strlit("freq20");
    reveal_strlit("freq30");
    reveal_strlit("freq60");
    reveal_strlit("mode0");
    reveal_strlit("mode1");
    assert("freq20"@[4] != "freq10"@[4]);
    assert("freq30"@[4] != "freq10"@[4]);
    assert("freq30"@[4] != "freq20"@[4]);
    assert("freq60"@[4] != "freq10"@[4]);
    assert("freq60"@[4] != "freq20"@[4]);
    assert("freq60"@[4] != "freq30"@[4]);
    assert("mode0"@.len() != "freq10"@.len());
    assert("mode1"@[4] != "mode0"@[4]);
}

} // verus!
