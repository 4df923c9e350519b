//! Collector configuration: a key–value text with newline or comma
//! delimiters and a colon between key and value. Unknown keys are ignored
//! and malformed values fall back to the defaults.

use vstd::prelude::*;

verus! {

/// How many flow rows the reader shows.
#[derive(Clone, Copy, PartialEq, Eq, Structural, Debug)]
pub enum FlowsToShow {
    Limit { flows: i32 },
    NoLimit,
}

/// Whether the row store lives in a file or in memory.
#[derive(Clone, Copy, PartialEq, Eq, Structural, Debug)]
pub enum ConnType {
    InMemory,
    InFile,
}

/// The reader's sort key.
#[derive(Clone, Copy, PartialEq, Eq, Structural, Debug)]
pub enum SortBy {
    Pkts,
    Bytes,
    Unsorted,
}

/// The collector's settings. The bind address is kept as characters; the
/// caller renders it when binding.
#[derive(Clone, Debug)]
pub struct ServerSettings {
    pub conn_type: ConnType,
    pub flow_limit: FlowsToShow,
    pub sort_by: SortBy,
    pub address: Vec<char>,
    pub port: u16,
    pub unicast_only: bool,
}

/// The mathematical shape of the settings.
pub ghost struct SettingsModel {
    pub conn_type: ConnType,
    pub flow_limit: FlowsToShow,
    pub sort_by: SortBy,
    pub address: Seq<char>,
    pub port: u16,
    pub unicast_only: bool,
}

impl View for ServerSettings {
    type V = SettingsModel;

    open spec fn view(&self) -> SettingsModel {
        SettingsModel {
            conn_type: self.conn_type,
            flow_limit: self.flow_limit,
            sort_by: self.sort_by,
            address: self.address@,
            port: self.port,
            unicast_only: self.unicast_only,
        }
    }
}

/// The defaults: a file-backed store, thirty rows sorted by bytes, every
/// traffic type, listening on every interface at the usual flow port.
pub open spec fn spec_default_settings() -> SettingsModel {
    SettingsModel {
        conn_type: ConnType::InFile,
        flow_limit: FlowsToShow::Limit { flows: 30 },
        sort_by: SortBy::Bytes,
        address: "0.0.0.0"@,
        port: 2055,
        unicast_only: false,
    }
}

/// Blank characters trimmed around keys and values.
pub open spec fn spec_is_space(c: char) -> bool {
    c == ' ' || c == '\t' || c == '\r'
}

/// A token without its leading blanks.
pub open spec fn spec_trim_front(t: Seq<char>) -> Seq<char>
    decreases t.len(),
{
    if t.len() > 0 && spec_is_space(t[0]) {
        spec_trim_front(t.drop_first())
    } else {
        t
    }
}

/// A token without its trailing blanks.
pub open spec fn spec_trim_back(t: Seq<char>) -> Seq<char>
    decreases t.len(),
{
    if t.len() > 0 && spec_is_space(t.last()) {
        spec_trim_back(t.drop_last())
    } else {
        t
    }
}

/// A token without leading or trailing blanks.
pub open spec fn spec_trim(t: Seq<char>) -> Seq<char> {
    spec_trim_back(spec_trim_front(t))
}

/// The index of the first colon, or -1 when there is none.
pub open spec fn spec_colon_idx(t: Seq<char>) -> int
    decreases t.len(),
{
    if t.len() == 0 {
        -1
    } else if t[0] == ':' {
        0
    } else {
        let r = spec_colon_idx(t.drop_first());
        if r < 0 {
            -1
        } else {
            r + 1
        }
    }
}

/// The value of a decimal digit character, -1 for anything else.
pub open spec fn spec_digit_of(c: char) -> int {
    if c == '0' {
        0
    } else if c == '1' {
        1
    } else if c == '2' {
        2
    } else if c == '3' {
        3
    } else if c == '4' {
        4
    } else if c == '5' {
        5
    } else if c == '6' {
        6
    } else if c == '7' {
        7
    } else if c == '8' {
        8
    } else if c == '9' {
        9
    } else {
        -1
    }
}

/// The number the digit characters spell, most significant first.
pub open spec fn spec_digits_val(t: Seq<char>) -> int
    decreases t.len(),
{
    if t.len() == 0 {
        0
    } else {
        spec_digits_val(t.drop_last()) * 10 + spec_digit_of(t.last())
    }
}

/// Ten to the `k`.
pub open spec fn spec_pow10(k: int) -> int
    decreases k,
{
    if k <= 0 {
        1
    } else {
        10 * spec_pow10(k - 1)
    }
}

/// The concrete powers of ten a nine-digit number can involve.
proof fn lemma_pow10_val(k: int)
    requires
        0 <= k <= 9,
    ensures
        k == 0 ==> spec_pow10(k) == 1,
        k == 1 ==> spec_pow10(k) == 10,
        k == 2 ==> spec_pow10(k) == 100,
        k == 3 ==> spec_pow10(k) == 1000,
        k == 4 ==> spec_pow10(k) == 10000,
        k == 5 ==> spec_pow10(k) == 100000,
        k == 6 ==> spec_pow10(k) == 1000000,
        k == 7 ==> spec_pow10(k) == 10000000,
        k == 8 ==> spec_pow10(k) == 100000000,
        k == 9 ==> spec_pow10(k) == 1000000000,
    decreases k,
{
    if k > 0 {
        lemma_pow10_val(k - 1);
    }
}

/// A digit string's value is below ten to its length.
proof fn lemma_digits_val_pow(t: Seq<char>)
    requires
        forall|j: int| 0 <= j < t.len() ==> spec_digit_of(#[trigger] t[j]) >= 0,
    ensures
        0 <= spec_digits_val(t) < spec_pow10(t.len() as int),
    decreases t.len(),
{
    if t.len() > 0 {
        assert(forall|j: int|
            0 <= j < t.drop_last().len() ==> spec_digit_of(#[trigger] t.drop_last()[j]) >= 0);
        lemma_digits_val_pow(t.drop_last());
        assert(spec_digit_of(t.last()) <= 9);
    }
}

/// A numeric value: one to nine decimal digits and nothing else. Longer
/// spellings are out of range for every numeric setting and rejected.
pub open spec fn spec_parse_num(t: Seq<char>) -> Option<int> {
    if 1 <= t.len() <= 9 && (forall|j: int| 0 <= j < t.len() ==> spec_digit_of(#[trigger] t[j])
        >= 0) {
        Some(spec_digits_val(t))
    } else {
        None
    }
}

/// One token folded into the settings: a token without a colon, with an
/// unknown key, or with a value the key cannot take changes nothing.
pub open spec fn spec_apply_token(acc: SettingsModel, t: Seq<char>) -> SettingsModel {
    let ci = spec_colon_idx(t);
    if ci < 0 {
        acc
    } else {
        let key = spec_trim(t.take(ci));
        let val = spec_trim(t.skip(ci + 1));
        if key == "database_file_or_mem"@ {
            if val == "file"@ {
                SettingsModel { conn_type: ConnType::InFile, ..acc }
            } else if val == "memory"@ {
                SettingsModel { conn_type: ConnType::InMemory, ..acc }
            } else {
                acc
            }
        } else if key == "flows_to_display"@ {
            match spec_parse_num(val) {
                Some(n) => if n > 0 {
                    SettingsModel { flow_limit: FlowsToShow::Limit { flows: n as i32 }, ..acc }
                } else {
                    acc
                },
                None => acc,
            }
        } else if key == "sort_flows_by_bytes_or_packets"@ {
            if val == "bytes"@ {
                SettingsModel { sort_by: SortBy::Bytes, ..acc }
            } else if val == "packets"@ {
                SettingsModel { sort_by: SortBy::Pkts, ..acc }
            } else {
                acc
            }
        } else if key == "address"@ {
            if val.len() > 0 {
                SettingsModel { address: val, ..acc }
            } else {
                acc
            }
        } else if key == "port"@ {
            match spec_parse_num(val) {
                Some(n) => if 0 < n <= 0xFFFF {
                    SettingsModel { port: n as u16, ..acc }
                } else {
                    acc
                },
                None => acc,
            }
        } else if key == "unicast_only"@ {
            if val == "true"@ {
                SettingsModel { unicast_only: true, ..acc }
            } else if val == "false"@ {
                SettingsModel { unicast_only: false, ..acc }
            } else {
                acc
            }
        } else {
            acc
        }
    }
}

/// The fold over the text from position `i` with the token gathered so far.
pub open spec fn spec_parse_config_from(
    s: Seq<char>,
    i: int,
    cur: Seq<char>,
    acc: SettingsModel,
) -> SettingsModel
    decreases s.len() - i,
{
    if i < 0 || i >= s.len() {
        spec_apply_token(acc, cur)
    } else if s[i] == ',' || s[i] == '\n' {
        spec_parse_config_from(s, i + 1, Seq::empty(), spec_apply_token(acc, cur))
    } else {
        spec_parse_config_from(s, i + 1, cur.push(s[i]), acc)
    }
}

/// The settings a configuration text denotes: tokens split on commas and
/// newlines, folded left to right over the defaults.
pub open spec fn spec_parse_config(s: Seq<char>) -> SettingsModel {
    spec_parse_config_from(s, 0, Seq::empty(), spec_default_settings())
}

/// Copies a character range of a token.
fn subvec(t: &Vec<char>, lo: usize, hi: usize) -> (r: Vec<char>)
    requires
        lo <= hi <= t.len(),
    ensures
        r@ == t@.subrange(lo as int, hi as int),
{
    let mut out: Vec<char> = Vec::new();
    let mut i: usize = lo;
    while i < hi
        invariant
            lo <= i <= hi <= t@.len(),
            out@ == t@.subrange(lo as int, i as int),
        decreases hi - i,
    {
        out.push(t[i]);
        proof {
            assert(out@ =~= t@.subrange(lo as int, i as int + 1));
        }
        i = i + 1;
    }
    out
}

/// Leading blanks reach exactly to the first non-blank character.
proof fn lemma_trim_front_skip(t: Seq<char>, lo: int)
    requires
        0 <= lo <= t.len(),
        forall|j: int| 0 <= j < lo ==> spec_is_space(#[trigger] t[j]),
        lo < t.len() ==> !spec_is_space(t[lo]),
    ensures
        spec_trim_front(t) == t.skip(lo),
    decreases lo,
{
    if lo == 0 {
        assert(t.skip(0) =~= t);
    } else {
        assert(t.drop_first().skip(lo - 1) =~= t.skip(lo));
        assert(forall|j: int| 0 <= j < lo - 1 ==> t.drop_first()[j] == t[j + 1]);
        lemma_trim_front_skip(t.drop_first(), lo - 1);
    }
}

/// Trailing blanks reach exactly back to the last non-blank character.
proof fn lemma_trim_back_take(t: Seq<char>, hi: int)
    requires
        0 <= hi <= t.len(),
        forall|j: int| hi <= j < t.len() ==> spec_is_space(#[trigger] t[j]),
        hi > 0 ==> !spec_is_space(t[hi - 1]),
    ensures
        spec_trim_back(t) == t.take(hi),
    decreases t.len() - hi,
{
    if hi == t.len() {
        assert(t.take(hi) =~= t);
    } else {
        assert(t.drop_last() =~= t.take(t.len() - 1));
        assert(t.drop_last().take(hi) =~= t.take(hi));
        lemma_trim_back_take(t.drop_last(), hi);
    }
}

/// Trims the blanks off a token.
fn trim_vec(t: &Vec<char>) -> (r: Vec<char>)
    ensures
        r@ == spec_trim(t@),
{
    let n = t.len();
    let mut lo: usize = 0;
    while lo < n && (t[lo] == ' ' || t[lo] == '\t' || t[lo] == '\r')
        invariant
            lo <= n,
            n == t@.len(),
            forall|j: int| 0 <= j < lo ==> spec_is_space(#[trigger] t@[j]),
        decreases n - lo,
    {
        lo = lo + 1;
    }
    proof {
        lemma_trim_front_skip(t@, lo as int);
    }
    let mut hi: usize = n;
    while hi > lo && (t[hi - 1] == ' ' || t[hi - 1] == '\t' || t[hi - 1] == '\r')
        invariant
            lo <= hi <= n,
            n == t@.len(),
            forall|j: int| 0 <= j < lo ==> spec_is_space(#[trigger] t@[j]),
            forall|j: int| hi <= j < n ==> spec_is_space(#[trigger] t@[j]),
        decreases hi,
    {
        hi = hi - 1;
    }
    let r = subvec(t, lo, hi);
    proof {
        let front = t@.skip(lo as int);
        assert(forall|j: int| hi - lo <= j < front.len() ==> spec_is_space(#[trigger] front[j]));
        if hi > lo {
            assert(!spec_is_space(front[hi - lo - 1]));
        }
        lemma_trim_back_take(front, hi - lo);
        assert(front.take(hi - lo) =~= t@.subrange(lo as int, hi as int));
    }
    r
}

/// A colon-free prefix pushes the first colon past it.
proof fn lemma_colon_idx_at(t: Seq<char>, i: int)
    requires
        0 <= i <= t.len(),
        forall|j: int| 0 <= j < i ==> (#[trigger] t[j]) != ':',
        i < t.len() ==> t[i] == ':',
    ensures
        i < t.len() ==> spec_colon_idx(t) == i,
        i == t.len() ==> spec_colon_idx(t) == -1,
    decreases i,
{
    if i == 0 {
    } else {
        assert(forall|j: int| 0 <= j < i - 1 ==> t.drop_first()[j] == t[j + 1]);
        lemma_colon_idx_at(t.drop_first(), i - 1);
    }
}

/// Compares a token with a literal, character for character.
fn chars_eq_str(v: &Vec<char>, s: &str) -> (r: bool)
    ensures
        r == (v@ == s@),
{
    let n = s.unicode_len();
    if v.len() != n {
        return false;
    }
    let mut i: usize = 0;
    while i < n
        invariant
            i <= n,
            n == s@.len(),
            n == v@.len(),
            forall|j: int| 0 <= j < i ==> v@[j] == s@[j],
        decreases n - i,
    {
        if v[i] != s.get_char(i) {
            return false;
        }
        i = i + 1;
    }
    proof {
        assert(v@ =~= s@);
    }
    true
}

/// Parses a one-to-nine digit number off a token.
fn parse_num_chars(v: &Vec<char>) -> (r: Option<u32>)
    ensures
        r matches Some(x) ==> spec_parse_num(v@) == Some(x as int),
        r is None ==> spec_parse_num(v@) is None,
{
    let n = v.len();
    if n == 0 || n > 9 {
        return None;
    }
    let mut acc: u32 = 0;
    let mut i: usize = 0;
    while i < n
        invariant
            i <= n,
            1 <= n <= 9,
            n == v@.len(),
            forall|j: int| 0 <= j < i ==> spec_digit_of(#[trigger] v@[j]) >= 0,
            acc == spec_digits_val(v@.take(i as int)),
        decreases n - i,
    {
        let c = v[i];
        let d: u32 = match c {
            '0' => 0,
            '1' => 1,
            '2' => 2,
            '3' => 3,
            '4' => 4,
            '5' => 5,
            '6' => 6,
            '7' => 7,
            '8' => 8,
            '9' => 9,
            _ => {
                return None;
            },
        };
        proof {
            assert(spec_digit_of(v@[i as int]) == d);
            assert(v@.take(i as int + 1).drop_last() =~= v@.take(i as int));
            assert(v@.take(i as int + 1).last() == v@[i as int]);
            assert(forall|j: int|
                0 <= j < i ==> spec_digit_of(#[trigger] v@.take(i as int)[j]) >= 0);
            lemma_digits_val_pow(v@.take(i as int));
            lemma_pow10_val(i as int);
        }
        acc = acc * 10 + d;
        i = i + 1;
    }
    proof {
        assert(v@.take(n as int) =~= v@);
    }
    Some(acc)
}

/// Folds one token into the settings.
fn apply_token(settings: &mut ServerSettings, t: &Vec<char>)
    ensures
        final(settings)@ == spec_apply_token(old(settings)@, t@),
{
    let n = t.len();
    let mut ci: usize = 0;
    let mut found = false;
    while ci < n
        invariant_except_break
            ci <= n,
            n == t@.len(),
            !found,
            forall|j: int| 0 <= j < ci ==> (#[trigger] t@[j]) != ':',
        ensures
            ci <= n,
            n == t@.len(),
            forall|j: int| 0 <= j < ci ==> (#[trigger] t@[j]) != ':',
            found ==> ci < n && t@[ci as int] == ':',
            !found ==> ci == n,
        decreases n - ci,
    {
        if t[ci] == ':' {
            found = true;
            break ;
        }
        ci = ci + 1;
    }
    proof {
        lemma_colon_idx_at(t@, ci as int);
    }
    if !found {
        return ;
    }
    let key = trim_vec(&subvec(t, 0, ci));
    let val = trim_vec(&subvec(t, ci + 1, n));
    proof {
        assert(t@.subrange(0, ci as int) =~= t@.take(ci as int));
        assert(t@.subrange(ci as int + 1, n as int) =~= t@.skip(ci as int + 1));
    }
    if chars_eq_str(&key, "database_file_or_mem") {
        if chars_eq_str(&val, "file") {
            settings.conn_type = ConnType::InFile;
        } else if chars_eq_str(&val, "memory") {
            settings.conn_type = ConnType::InMemory;
        }
    } else if chars_eq_str(&key, "flows_to_display") {
        match parse_num_chars(&val) {
            Some(x) => {
                if x > 0 {
                    settings.flow_limit = FlowsToShow::Limit { flows: x as i32 };
                }
            },
            None => {},
        }
    } else if chars_eq_str(&key, "sort_flows_by_bytes_or_packets") {
        if chars_eq_str(&val, "bytes") {
            settings.sort_by = SortBy::Bytes;
        } else if chars_eq_str(&val, "packets") {
            settings.sort_by = SortBy::Pkts;
        }
    } else if chars_eq_str(&key, "address") {
        if val.len() > 0 {
            settings.address = val;
        }
    } else if chars_eq_str(&key, "port") {
        match parse_num_chars(&val) {
            Some(x) => {
                if 0 < x && x <= 0xFFFF {
                    settings.port = x as u16;
                }
            },
            None => {},
        }
    } else if chars_eq_str(&key, "unicast_only") {
        if chars_eq_str(&val, "true") {
            settings.unicast_only = true;
        } else if chars_eq_str(&val, "false") {
            settings.unicast_only = false;
        }
    }
}

/// Parses a configuration text: tokens split on commas and newlines, each
/// `key: value`, folded over the defaults. Unknown keys and values a key
/// cannot take are ignored.
pub fn parse_config_string(config: &str) -> (r: ServerSettings)
    ensures
        r@ == spec_parse_config(config@),
{
    proof {
        reveal_strlit("0.0.0.0");
    }
    let mut address: Vec<char> = Vec::new();
    address.push('0');
    address.push('.');
    address.push('0');
    address.push('.');
    address.push('0');
    address.push('.');
    address.push('0');
    proof {
        assert(address@ =~= "0.0.0.0"@);
    }
    let mut settings = ServerSettings {
        conn_type: ConnType::InFile,
        flow_limit: FlowsToShow::Limit { flows: 30 },
        sort_by: SortBy::Bytes,
        address,
        port: 2055,
        unicast_only: false,
    };
    let n = config.unicode_len();
    let mut cur: Vec<char> = Vec::new();
    let mut i: usize = 0;
    proof {
        assert(settings@ == spec_default_settings());
    }
    while i < n
        invariant
            i <= n,
            n == config@.len(),
            spec_parse_config(config@) == spec_parse_config_from(
                config@,
                i as int,
                cur@,
                settings@,
            ),
        decreases n - i,
    {
        let c = config.get_char(i);
        if c == ',' || c == '\n' {
            apply_token(&mut settings, &cur);
            cur = Vec::new();
        } else {
            cur.push(c);
        }
        i = i + 1;
    }
    apply_token(&mut settings, &cur);
    settings
}

} // verus!
