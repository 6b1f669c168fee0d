//! Recognition of the Stratum lines the proxy observes.
//!
//! Every relayed line is a JSON-RPC message.  The proxy cares about
//! four method shapes (`mining.authorize`, `mining.submit`,
//! `mining.notify`, `mining.set_difficulty`) and about generic
//! id-bearing replies whose `result` is a boolean or whose `error` is
//! non-null.  Everything else, malformed JSON included, is ignored
//! and relayed unchanged.
//!
//! JSON decoding itself is delegated to `serde_json` behind one
//! trusted wrapper; what that wrapper extracts is a plain record of
//! fields ([`WireFields`]), and everything from there on is verified.

use vstd::prelude::*;
use vstd::string::StrSliceExecFns;
use vstd::string::StringExecFns;
use serde_json::Value;

verus! {

/// The fields a decoded line can contribute, as mathematical values.
pub struct WireShape {
    /// The `method` field, when it is a string.
    pub method: Option<Seq<char>>,
    /// `params[0]`, when it is a string.
    pub param0: Option<Seq<char>>,
    /// `params[1]`, when it is a string.
    pub param1: Option<Seq<char>>,
    /// The decimal text of `params[0]`, when it is a number.
    pub num0: Option<Seq<char>>,
    /// Whether an `id` field is present.
    pub has_id: bool,
    /// The `result` field, when it is a boolean.
    pub result_bool: Option<bool>,
    /// Whether an `error` field is present and non-null.
    pub error_nonnull: bool,
}

/// The fields a decoded line can contribute.
pub struct WireFields {
    pub method: Option<String>,
    pub param0: Option<String>,
    pub param1: Option<String>,
    pub num0: Option<String>,
    pub has_id: bool,
    pub result_bool: Option<bool>,
    pub error_nonnull: bool,
}

impl View for WireFields {
    type V = WireShape;

    open spec fn view(&self) -> WireShape {
        WireShape {
            method: match self.method {
                Some(s) => Some(s@),
                None => None,
            },
            param0: match self.param0 {
                Some(s) => Some(s@),
                None => None,
            },
            param1: match self.param1 {
                Some(s) => Some(s@),
                None => None,
            },
            num0: match self.num0 {
                Some(s) => Some(s@),
                None => None,
            },
            has_id: self.has_id,
            result_bool: self.result_bool,
            error_nonnull: self.error_nonnull,
        }
    }
}

/// The empty shape: what a line that is not a JSON object yields.
pub open spec fn empty_shape() -> WireShape {
    WireShape {
        method: None,
        param0: None,
        param1: None,
        num0: None,
        has_id: false,
        result_bool: None,
        error_nonnull: false,
    }
}

impl Default for WireFields {
    fn default() -> (r: Self)
        ensures
            r@ == empty_shape(),
    {
        WireFields {
            method: None,
            param0: None,
            param1: None,
            num0: None,
            has_id: false,
            result_bool: None,
            error_nonnull: false,
        }
    }
}

/// What decoding a line yields.  This names the combined result of
/// `serde_json`'s parse and field accessors on the line's text; it is
/// a function of the text alone.
pub uninterp spec fn line_shape(s: Seq<char>) -> WireShape;

/// Relies on `serde_json::from_str::<Value>` and on the `Value`
/// accessors `get`, `as_str`, `as_number`, `as_bool` and `is_null`
/// (with `Number`'s decimal rendering via `to_string`): a line that
/// does not parse yields the empty shape, and otherwise each field is
/// read out of the document as a plain value.
#[verifier::external_body]
fn decode_line(line: &str) -> (r: WireFields)
    ensures
        r@ == line_shape(line@),
{
    let v: Value = match serde_json::from_str(line) {
        Ok(v) => v,
        _ => return WireFields::default(),
    };
    let p0 = v.get("params").and_then(|p| p.get(0));
    let s = |o: Option<&Value>| o.and_then(Value::as_str).map(ToString::to_string);
    WireFields {
        method: s(v.get("method")),
        param0: s(p0),
        param1: s(v.get("params").and_then(|p| p.get(1))),
        num0: p0.and_then(Value::as_number).map(ToString::to_string),
        has_id: v.get("id").is_some(),
        result_bool: v.get("result").and_then(Value::as_bool),
        error_nonnull: v.get("error").map_or(false, |e| !e.is_null()),
    }
}

/// Whether `c` is a decimal digit.
pub open spec fn is_digit(c: char) -> bool {
    48 <= c as int && c as int <= 57
}

/// The numeric value of a digit character.
pub open spec fn digit_val(c: char) -> int {
    c as int - 48
}

/// The value of the digit run `s[i..j]`, most significant first.
pub open spec fn dec_val_range(s: Seq<char>, i: int, j: int) -> int
    decreases j - i,
{
    if i >= j {
        0
    } else {
        dec_val_range(s, i, j - 1) * 10 + digit_val(s[j - 1])
    }
}

/// The first index at or after `i` holding `'.'`, or the length.
pub open spec fn dot_pos_from(s: Seq<char>, i: int) -> int
    decreases s.len() - i,
{
    if i < 0 || i >= s.len() {
        s.len() as int
    } else if s[i] == '.' {
        i
    } else {
        dot_pos_from(s, i + 1)
    }
}

/// The fractional digits `s[i..j]` scaled to thousandths, truncated
/// past the third digit.
pub open spec fn milli_of_frac(s: Seq<char>, i: int, j: int) -> int {
    if j - i <= 0 {
        0
    } else if j - i == 1 {
        dec_val_range(s, i, j) * 100
    } else if j - i == 2 {
        dec_val_range(s, i, j) * 10
    } else {
        dec_val_range(s, i, i + 3)
    }
}

/// Parses non-negative decimal text (digits, optionally a dot and
/// more digits) into thousandths, truncated to the third fractional
/// digit.  Yields nothing for any other shape, and for values whose
/// thousandths do not fit in 64 bits.
pub open spec fn spec_parse_milli(s: Seq<char>) -> Option<u64> {
    let d = dot_pos_from(s, 0);
    if s.len() == 0 || d == 0 {
        None
    } else if !(forall|t: int| 0 <= t < d ==> is_digit(s[t])) {
        None
    } else if !(forall|t: int| d < t < s.len() ==> is_digit(s[t])) {
        None
    } else {
        let v = dec_val_range(s, 0, d) * 1000 + milli_of_frac(s, d + 1, s.len() as int);
        if v > u64::MAX {
            None
        } else {
            Some(v as u64)
        }
    }
}

proof fn lemma_dec_val_nonneg(s: Seq<char>, i: int, j: int)
    requires
        forall|t: int| i <= t < j ==> is_digit(s[t]),
    ensures
        dec_val_range(s, i, j) >= 0,
    decreases j - i,
{
    if i < j {
        lemma_dec_val_nonneg(s, i, j - 1);
    }
}

proof fn lemma_dec_val_mono(s: Seq<char>, i: int, t: int, j: int)
    requires
        i <= t <= j,
        forall|m: int| i <= m < j ==> is_digit(s[m]),
    ensures
        dec_val_range(s, i, j) >= dec_val_range(s, i, t),
    decreases j - t,
{
    if t < j {
        lemma_dec_val_mono(s, i, t, j - 1);
        lemma_dec_val_nonneg(s, i, j - 1);
    }
}

proof fn lemma_dot_pos_skip(s: Seq<char>, i: int)
    requires
        0 <= i <= s.len(),
        forall|t: int| 0 <= t < i ==> s[t] != '.',
    ensures
        dot_pos_from(s, 0) == dot_pos_from(s, i),
    decreases i,
{
    if i > 0 {
        lemma_dot_pos_skip(s, i - 1);
    }
}

proof fn lemma_dot_pos_at(s: Seq<char>, i: int)
    requires
        0 <= i < s.len(),
        s[i] == '.',
        forall|t: int| 0 <= t < i ==> s[t] != '.',
    ensures
        dot_pos_from(s, 0) == i,
{
    lemma_dot_pos_skip(s, i);
}

/// Finds the first `'.'` in `s`, or returns `s`'s length.
pub(crate) fn find_dot(s: &str) -> (d: usize)
    ensures
        d == dot_pos_from(s@, 0),
        d <= s@.len(),
{
    let n = s.unicode_len();
    let mut i: usize = 0;
    while i < n
        invariant
            0 <= i <= n,
            n == s@.len(),
            forall|t: int| 0 <= t < i ==> s@[t] != '.',
        decreases n - i,
    {
        if s.get_char(i) == '.' {
            proof {
                lemma_dot_pos_at(s@, i as int);
            }
            return i;
        }
        i = i + 1;
    }
    proof {
        lemma_dot_pos_skip(s@, n as int);
    }
    n
}

/// Reads the digit run `s[from..to]`; fails on a non-digit or when
/// the value leaves 64 bits.
fn read_digits(s: &str, from: usize, to: usize) -> (r: Option<u64>)
    requires
        from <= to <= s@.len(),
    ensures
        match r {
            Some(v) => {
                &&& forall|t: int| from <= t < to ==> is_digit(s@[t])
                &&& v == dec_val_range(s@, from as int, to as int)
            },
            None => {
                ||| exists|t: int| from <= t < to && !is_digit(s@[t])
                ||| dec_val_range(s@, from as int, to as int) > u64::MAX
            },
        },
{
    let mut acc: u128 = 0;
    let mut i: usize = from;
    while i < to
        invariant
            from <= i <= to <= s@.len(),
            forall|t: int| from <= t < i ==> is_digit(s@[t]),
            acc == dec_val_range(s@, from as int, i as int),
            acc <= u64::MAX,
        decreases to - i,
    {
        let c = s.get_char(i);
        let u = c as u32;
        if u < 48 || u > 57 {
            return None;
        }
        let d: u128 = (u - 48) as u128;
        acc = acc * 10 + d;
        i = i + 1;
        if acc > u64::MAX as u128 {
            proof {
                if forall|t: int| from <= t < to ==> is_digit(s@[t]) {
                    lemma_dec_val_mono(s@, from as int, i as int, to as int);
                }
            }
            return None;
        }
    }
    Some(acc as u64)
}

/// Whether every character of `s[from..to]` is a decimal digit.
fn all_digits_in(s: &str, from: usize, to: usize) -> (r: bool)
    requires
        from <= to <= s@.len(),
    ensures
        r == forall|t: int| from <= t < to ==> is_digit(s@[t]),
{
    let mut i: usize = from;
    while i < to
        invariant
            from <= i <= to <= s@.len(),
            forall|t: int| from <= t < i ==> is_digit(s@[t]),
        decreases to - i,
    {
        let u = s.get_char(i) as u32;
        if u < 48 || u > 57 {
            return false;
        }
        i = i + 1;
    }
    true
}

proof fn lemma_dec_val_small(s: Seq<char>, i: int, j: int)
    requires
        forall|t: int| i <= t < j ==> is_digit(s[t]),
    ensures
        j - i <= 0 ==> dec_val_range(s, i, j) == 0,
        j - i == 1 ==> dec_val_range(s, i, j) <= 9,
        j - i == 2 ==> dec_val_range(s, i, j) <= 99,
        j - i == 3 ==> dec_val_range(s, i, j) <= 999,
    decreases j - i,
{
    if i < j {
        lemma_dec_val_small(s, i, j - 1);
    }
}

/// Parses decimal text into thousandths; the executable counterpart
/// of [`spec_parse_milli`].
pub fn parse_milli(s: &str) -> (r: Option<u64>)
    ensures
        r == spec_parse_milli(s@),
{
    let n = s.unicode_len();
    let d = find_dot(s);
    if n == 0 || d == 0 {
        return None;
    }
    let ip = match read_digits(s, 0, d) {
        Some(v) => v,
        None => {
            return handle_int_overflow(s, d, n);
        },
    };
    let fstart = if d < n {
        d + 1
    } else {
        n
    };
    let fend3 = if n - fstart > 3 {
        fstart + 3
    } else {
        n
    };
    // every fractional character must be a digit, even past the third
    if !all_digits_in(s, fstart, n) {
        return None;
    }
    let f = match read_digits(s, fstart, fend3) {
        Some(v) => v,
        None => {
            proof {
                lemma_dec_val_small(s@, fstart as int, fend3 as int);
            }
            return None;
        },
    };
    let flen = fend3 - fstart;
    let f3: u128 = if flen == 0 {
        0
    } else if flen == 1 {
        (f as u128) * 100
    } else if flen == 2 {
        (f as u128) * 10
    } else {
        f as u128
    };
    let v: u128 = (ip as u128) * 1000 + f3;
    proof {
        lemma_dec_val_nonneg(s@, 0, d as int);
        lemma_dec_val_nonneg(s@, fstart as int, fend3 as int);
    }
    if v > u64::MAX as u128 {
        None
    } else {
        Some(v as u64)
    }
}

/// The overflow tail of [`parse_milli`]: the integer digits do not
/// fit, so whatever the fractional part holds, nothing is returned.
fn handle_int_overflow(s: &str, d: usize, n: usize) -> (r: Option<u64>)
    requires
        0 < d <= n,
        n == s@.len(),
        d == dot_pos_from(s@, 0),
        (exists|t: int| 0 <= t < d && !is_digit(s@[t])) || dec_val_range(s@, 0, d as int)
            > u64::MAX,
    ensures
        r == spec_parse_milli(s@),
{
    proof {
        if forall|t: int| 0 <= t < d ==> is_digit(s@[t]) {
            assert(dec_val_range(s@, 0, d as int) > u64::MAX);
            if forall|t: int| d < t < n ==> is_digit(s@[t]) {
                lemma_frac_nonneg(s@, d as int + 1, n as int);
                assert(dec_val_range(s@, 0, d as int) * 1000 >= dec_val_range(s@, 0, d as int))
                    by (nonlinear_arith)
                    requires
                        dec_val_range(s@, 0, d as int) >= 0,
                ;
            }
        }
    }
    None
}

proof fn lemma_frac_nonneg(s: Seq<char>, i: int, j: int)
    requires
        forall|t: int| i <= t < j ==> is_digit(s[t]),
    ensures
        milli_of_frac(s, i, j) >= 0,
{
    if j - i <= 0 {
    } else if j - i == 1 || j - i == 2 {
        lemma_dec_val_nonneg(s, i, j);
    } else {
        lemma_dec_val_nonneg(s, i, i + 3);
    }
}

/// One observed protocol event, as mathematical values.
pub enum EventModel {
    /// A client asked to authorize; the first parameter is the username.
    ClientAuthorize { username: Seq<char> },
    /// A client submitted a share; the second parameter, when it is a
    /// string, is the job id.
    ClientSubmit { job_id: Option<Seq<char>> },
    /// The pool announced a job; the first parameter is the job id.
    PoolNotify { job_id: Seq<char> },
    /// The pool set the share difficulty, in thousandths.
    PoolSetDifficulty { milli: u64 },
    /// An id-bearing reply with a boolean `result` or a non-null `error`.
    PoolReply { ok: Option<bool>, error_nonnull: bool },
    /// Anything else, malformed JSON included.
    Ignore,
}

/// One observed protocol event.
pub enum Event {
    ClientAuthorize { username: String },
    ClientSubmit { job_id: Option<String> },
    PoolNotify { job_id: String },
    PoolSetDifficulty { milli: u64 },
    PoolReply { ok: Option<bool>, error_nonnull: bool },
    Ignore,
}

impl View for Event {
    type V = EventModel;

    open spec fn view(&self) -> EventModel {
        match self {
            Event::ClientAuthorize { username } => EventModel::ClientAuthorize {
                username: username@,
            },
            Event::ClientSubmit { job_id } => EventModel::ClientSubmit {
                job_id: match job_id {
                    Some(j) => Some(j@),
                    None => None,
                },
            },
            Event::PoolNotify { job_id } => EventModel::PoolNotify { job_id: job_id@ },
            Event::PoolSetDifficulty { milli } => EventModel::PoolSetDifficulty { milli: *milli },
            Event::PoolReply { ok, error_nonnull } => EventModel::PoolReply {
                ok: *ok,
                error_nonnull: *error_nonnull,
            },
            Event::Ignore => EventModel::Ignore,
        }
    }
}

/// The event a decoded line stands for.
///
/// Method shapes are recognized first; a message that fits none of
/// them but carries an `id` together with a boolean `result` or a
/// non-null `error` is a reply; everything else is ignored.
pub open spec fn spec_classify(w: WireShape) -> EventModel {
    if w.method == Some("mining.authorize"@) {
        match w.param0 {
            Some(u) => EventModel::ClientAuthorize { username: u },
            None => EventModel::Ignore,
        }
    } else if w.method == Some("mining.submit"@) {
        EventModel::ClientSubmit { job_id: w.param1 }
    } else if w.method == Some("mining.notify"@) {
        match w.param0 {
            Some(j) => EventModel::PoolNotify { job_id: j },
            None => EventModel::Ignore,
        }
    } else if w.method == Some("mining.set_difficulty"@) {
        match w.num0 {
            Some(t) => match spec_parse_milli(t) {
                Some(v) => EventModel::PoolSetDifficulty { milli: v },
                None => EventModel::Ignore,
            },
            None => EventModel::Ignore,
        }
    } else if w.has_id && (w.result_bool is Some || w.error_nonnull) {
        EventModel::PoolReply { ok: w.result_bool, error_nonnull: w.error_nonnull }
    } else {
        EventModel::Ignore
    }
}

/// Classifies already-decoded fields.
pub fn classify(w: &WireFields) -> (e: Event)
    ensures
        e@ == spec_classify(w@),
{
    let authorize = String::from_str("mining.authorize");
    let submit = String::from_str("mining.submit");
    let notify = String::from_str("mining.notify");
    let set_difficulty = String::from_str("mining.set_difficulty");
    match &w.method {
        Some(m) => {
            if *m == authorize {
                match &w.param0 {
                    Some(u) => Event::ClientAuthorize { username: u.clone() },
                    None => Event::Ignore,
                }
            } else if *m == submit {
                match &w.param1 {
                    Some(j) => Event::ClientSubmit { job_id: Some(j.clone()) },
                    None => Event::ClientSubmit { job_id: None },
                }
            } else if *m == notify {
                match &w.param0 {
                    Some(j) => Event::PoolNotify { job_id: j.clone() },
                    None => Event::Ignore,
                }
            } else if *m == set_difficulty {
                match &w.num0 {
                    Some(t) => match parse_milli(t.as_str()) {
                        Some(v) => Event::PoolSetDifficulty { milli: v },
                        None => Event::Ignore,
                    },
                    None => Event::Ignore,
                }
            } else {
                classify_reply(w)
            }
        },
        None => classify_reply(w),
    }
}

/// The reply arm of classification, shared by both method outcomes.
fn classify_reply(w: &WireFields) -> (e: Event)
    requires
        w@.method != Some("mining.authorize"@),
        w@.method != Some("mining.submit"@),
        w@.method != Some("mining.notify"@),
        w@.method != Some("mining.set_difficulty"@),
    ensures
        e@ == spec_classify(w@),
{
    if w.has_id && (w.result_bool.is_some() || w.error_nonnull) {
        Event::PoolReply { ok: w.result_bool, error_nonnull: w.error_nonnull }
    } else {
        Event::Ignore
    }
}

/// Decodes one relayed line and classifies it.
pub fn classify_line(line: &str) -> (e: Event)
    ensures
        e@ == spec_classify(line_shape(line@)),
{
    let w = decode_line(line);
    classify(&w)
}

} // verus!

