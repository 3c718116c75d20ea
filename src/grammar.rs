use vstd::prelude::*;

use crate::model::{
    file_result_view, states_view, Delay, FormatError, IconFile, IconFileView, IconState,
    IconStateView,
};
use crate::outside::{chars_of, string_of};
use crate::text::{
    digits_value, digits_value_exec, find_char, find_char_exec, is_decimal, is_uint,
    lemma_find_char, parse_uint, skip_ws, skip_ws_exec,
    trim_back, trim_back_exec,
};

verus! {

/// The keys of the description grammar; every other key is ignored.
#[derive(Clone, Copy, Debug, PartialEq, Eq, Structural)]
pub enum Key {
    Version,
    Width,
    Height,
    State,
    Dirs,
    Frames,
    Delay,
    Loop,
    Rewind,
    Other,
}

pub open spec fn key_of(s: Seq<char>) -> Key {
    if s == seq!['v', 'e', 'r', 's', 'i', 'o', 'n'] {
        Key::Version
    } else if s == seq!['w', 'i', 'd', 't', 'h'] {
        Key::Width
    } else if s == seq!['h', 'e', 'i', 'g', 'h', 't'] {
        Key::Height
    } else if s == seq!['s', 't', 'a', 't', 'e'] {
        Key::State
    } else if s == seq!['d', 'i', 'r', 's'] {
        Key::Dirs
    } else if s == seq!['f', 'r', 'a', 'm', 'e', 's'] {
        Key::Frames
    } else if s == seq!['d', 'e', 'l', 'a', 'y'] {
        Key::Delay
    } else if s == seq!['l', 'o', 'o', 'p'] {
        Key::Loop
    } else if s == seq!['r', 'e', 'w', 'i', 'n', 'd'] {
        Key::Rewind
    } else {
        Key::Other
    }
}

/// A delay written in `[lo, hi)`, when it is a decimal whose digits fit in a `u64`.
pub open spec fn decimal_of(t: Seq<char>, lo: int, hi: int) -> Option<Delay> {
    let p = find_char(t, lo, hi, '.');
    if is_decimal(t, lo, hi) && digits_value(t, lo, hi) <= u64::MAX {
        Some(
            Delay {
                units: digits_value(t, lo, hi) as u64,
                decimals: if p < hi {
                    (hi - p - 1) as usize
                } else {
                    0
                },
            },
        )
    } else {
        None
    }
}

/// The comma-separated delays written in `[i, hi)`, each one trimmed.
pub open spec fn delays_from(t: Seq<char>, i: int, hi: int) -> Option<Seq<Delay>>
    decreases hi - i,
    when i <= hi
    via delays_from_decreases
{
    let e = find_char(t, i, hi, ',');
    let a = skip_ws(t, i, e);
    let b = trim_back(t, a, e);
    match decimal_of(t, a, b) {
        None => None,
        Some(d) => if e >= hi {
            Some(seq![d])
        } else {
            match delays_from(t, e + 1, hi) {
                None => None,
                Some(rest) => Some(seq![d] + rest),
            }
        },
    }
}

#[via_fn]
proof fn delays_from_decreases(t: Seq<char>, i: int, hi: int) {
    lemma_find_char(t, i, hi, ',');
}

/// The parser's state: the header fields read so far, the finished states, and the
/// state being read, if one has begun.
pub ghost struct MetaModel {
    pub version: Seq<char>,
    pub width: Option<u16>,
    pub height: Option<u16>,
    pub done: Seq<IconStateView>,
    pub current: Option<IconStateView>,
}

pub open spec fn initial_model() -> MetaModel {
    MetaModel { version: seq![], width: None, height: None, done: seq![], current: None }
}

pub open spec fn default_state(name: Seq<char>) -> IconStateView {
    IconStateView {
        name,
        direction_count: 1,
        frame_count: 1,
        rewinds: false,
        loop_count: 0,
        frame_delays: seq![],
    }
}

pub open spec fn opt_seq(s: Option<IconStateView>) -> Seq<IconStateView> {
    match s {
        Some(x) => seq![x],
        None => seq![],
    }
}

/// A `state` line closes the state being read and begins a new one with default fields.
pub open spec fn begin_state(st: MetaModel, name: Seq<char>) -> MetaModel {
    MetaModel { done: st.done + opt_seq(st.current), current: Some(default_state(name)), ..st }
}

pub open spec fn with_current(st: MetaModel, s: IconStateView) -> MetaModel {
    MetaModel { current: Some(s), ..st }
}

/// The effect of the field `key = t[va..vb]` on line `n`.
pub open spec fn apply_field(
    st: MetaModel,
    key: Key,
    t: Seq<char>,
    va: int,
    vb: int,
    n: usize,
) -> Result<MetaModel, FormatError> {
    let v = digits_value(t, va, vb);
    match key {
        Key::Version => Ok(MetaModel { version: t.subrange(va, vb), ..st }),
        Key::Width => if st.current is Some || st.width is Some {
            Err(FormatError::MisplacedField(n))
        } else if is_uint(t, va, vb) && 1 <= v <= u16::MAX {
            Ok(MetaModel { width: Some(v as u16), ..st })
        } else {
            Err(FormatError::InvalidValue(n))
        },
        Key::Height => if st.current is Some || st.height is Some {
            Err(FormatError::MisplacedField(n))
        } else if is_uint(t, va, vb) && 1 <= v <= u16::MAX {
            Ok(MetaModel { height: Some(v as u16), ..st })
        } else {
            Err(FormatError::InvalidValue(n))
        },
        Key::State => if vb - va >= 2 && t[va] == '"' && t[vb - 1] == '"' {
            Ok(begin_state(st, t.subrange(va + 1, vb - 1)))
        } else {
            Err(FormatError::InvalidValue(n))
        },
        Key::Other => Ok(st),
        _ => match st.current {
            None => Err(FormatError::MisplacedField(n)),
            Some(s) => match key {
                Key::Dirs => if is_uint(t, va, vb) && (v == 1 || v == 4 || v == 8) {
                    Ok(with_current(st, IconStateView { direction_count: v as u8, ..s }))
                } else {
                    Err(FormatError::InvalidDirection(n))
                },
                Key::Frames => if is_uint(t, va, vb) && 1 <= v <= u8::MAX {
                    if s.frame_delays.len() > 0 && s.frame_delays.len() != v {
                        Err(FormatError::DelayMismatch(n))
                    } else {
                        Ok(with_current(st, IconStateView { frame_count: v as u8, ..s }))
                    }
                } else {
                    Err(FormatError::InvalidValue(n))
                },
                Key::Delay => match delays_from(t, va, vb) {
                    None => Err(FormatError::InvalidValue(n)),
                    Some(ds) => if ds.len() != s.frame_count {
                        Err(FormatError::DelayMismatch(n))
                    } else {
                        Ok(with_current(st, IconStateView { frame_delays: ds, ..s }))
                    },
                },
                Key::Loop => if is_uint(t, va, vb) && v <= u8::MAX {
                    Ok(with_current(st, IconStateView { loop_count: v as u8, ..s }))
                } else {
                    Err(FormatError::InvalidValue(n))
                },
                _ => if is_uint(t, va, vb) && v <= 1 {
                    Ok(with_current(st, IconStateView { rewinds: v == 1, ..s }))
                } else {
                    Err(FormatError::InvalidValue(n))
                },
            },
        },
    }
}

/// The effect of the line `t[lo..hi]`, numbered `n`. Blank lines and lines that begin
/// with `#` change nothing; any other line is `key = value`, both sides trimmed.
pub open spec fn step(st: MetaModel, t: Seq<char>, lo: int, hi: int, n: usize) -> Result<
    MetaModel,
    FormatError,
> {
    let a = skip_ws(t, lo, hi);
    let b = trim_back(t, a, hi);
    if a == b || t[a] == '#' {
        Ok(st)
    } else {
        let eq = find_char(t, a, b, '=');
        if eq == b {
            Err(FormatError::MalformedLine(n))
        } else {
            let kb = trim_back(t, a, eq);
            let va = skip_ws(t, eq + 1, b);
            apply_field(st, key_of(t.subrange(a, kb)), t, va, b, n)
        }
    }
}

/// Reads the lines of `t` from `pos` on; `n` lines came before.
pub open spec fn run(st: MetaModel, t: Seq<char>, pos: int, n: nat) -> Result<
    MetaModel,
    FormatError,
>
    decreases t.len() - pos,
    via run_decreases
{
    if pos >= t.len() || pos < 0 {
        Ok(st)
    } else {
        let e = find_char(t, pos, t.len() as int, '\n');
        match step(st, t, pos, e, (n + 1) as usize) {
            Err(x) => Err(x),
            Ok(s2) => run(
                s2,
                t,
                if e < t.len() {
                    e + 1
                } else {
                    t.len() as int
                },
                n + 1,
            ),
        }
    }
}

#[via_fn]
proof fn run_decreases(st: MetaModel, t: Seq<char>, pos: int, n: nat) {
    if 0 <= pos < t.len() {
        lemma_find_char(t, pos, t.len() as int, '\n');
    }
}

/// The icon file that the final state describes: both cell dimensions must be known.
pub open spec fn finish(st: MetaModel) -> Result<IconFileView, FormatError> {
    match (st.width, st.height) {
        (Some(w), Some(h)) => Ok(
            IconFileView {
                version: st.version,
                cell_width: w,
                cell_height: h,
                states: st.done + opt_seq(st.current),
            },
        ),
        _ => Err(FormatError::MissingDimensions),
    }
}

/// What the description text `t` describes.
pub open spec fn metadata_of(t: Seq<char>) -> Result<IconFileView, FormatError> {
    match run(initial_model(), t, 0, 0) {
        Ok(st) => finish(st),
        Err(e) => Err(e),
    }
}

fn range_is(t: &[char], lo: usize, hi: usize, w: &[char]) -> (r: bool)
    requires
        lo <= hi <= t@.len(),
    ensures
        r == (t@.subrange(lo as int, hi as int) == w@),
{
    if hi - lo != w.len() {
        proof {
            assert(t@.subrange(lo as int, hi as int).len() != w@.len());
        }
        return false;
    }
    let mut k: usize = 0;
    while k < w.len()
        invariant
            hi - lo == w@.len(),
            lo <= hi <= t@.len(),
            k <= w@.len(),
            forall|j: int| 0 <= j < k ==> t@[lo + j] == w@[j],
        decreases w.len() - k,
    {
        if t[lo + k] != w[k] {
            proof {
                assert(t@.subrange(lo as int, hi as int)[k as int] != w@[k as int]);
            }
            return false;
        }
        k = k + 1;
    }
    proof {
        assert(t@.subrange(lo as int, hi as int) =~= w@);
    }
    true
}

/// Which key `t[lo..hi]` names.
pub fn key_at(t: &[char], lo: usize, hi: usize) -> (r: Key)
    requires
        lo <= hi <= t@.len(),
    ensures
        r == key_of(t@.subrange(lo as int, hi as int)),
{
    let version: [char; 7] = ['v', 'e', 'r', 's', 'i', 'o', 'n'];
    let width: [char; 5] = ['w', 'i', 'd', 't', 'h'];
    let height: [char; 6] = ['h', 'e', 'i', 'g', 'h', 't'];
    let state: [char; 5] = ['s', 't', 'a', 't', 'e'];
    let dirs: [char; 4] = ['d', 'i', 'r', 's'];
    let frames: [char; 6] = ['f', 'r', 'a', 'm', 'e', 's'];
    let delay: [char; 5] = ['d', 'e', 'l', 'a', 'y'];
    let looping: [char; 4] = ['l', 'o', 'o', 'p'];
    let rewind: [char; 6] = ['r', 'e', 'w', 'i', 'n', 'd'];
    proof {
        assert(version@ =~= seq!['v', 'e', 'r', 's', 'i', 'o', 'n']);
        assert(width@ =~= seq!['w', 'i', 'd', 't', 'h']);
        assert(height@ =~= seq!['h', 'e', 'i', 'g', 'h', 't']);
        assert(state@ =~= seq!['s', 't', 'a', 't', 'e']);
        assert(dirs@ =~= seq!['d', 'i', 'r', 's']);
        assert(frames@ =~= seq!['f', 'r', 'a', 'm', 'e', 's']);
        assert(delay@ =~= seq!['d', 'e', 'l', 'a', 'y']);
        assert(looping@ =~= seq!['l', 'o', 'o', 'p']);
        assert(rewind@ =~= seq!['r', 'e', 'w', 'i', 'n', 'd']);
    }
    if range_is(t, lo, hi, &version) {
        Key::Version
    } else if range_is(t, lo, hi, &width) {
        Key::Width
    } else if range_is(t, lo, hi, &height) {
        Key::Height
    } else if range_is(t, lo, hi, &state) {
        Key::State
    } else if range_is(t, lo, hi, &dirs) {
        Key::Dirs
    } else if range_is(t, lo, hi, &frames) {
        Key::Frames
    } else if range_is(t, lo, hi, &delay) {
        Key::Delay
    } else if range_is(t, lo, hi, &looping) {
        Key::Loop
    } else if range_is(t, lo, hi, &rewind) {
        Key::Rewind
    } else {
        Key::Other
    }
}

/// Reads one delay from `[lo, hi)`.
pub fn parse_decimal(t: &[char], lo: usize, hi: usize) -> (r: Option<Delay>)
    requires
        lo <= hi <= t@.len(),
    ensures
        r == decimal_of(t@, lo as int, hi as int),
{
    if lo == hi {
        return None;
    }
    if hi == lo + 1 && t[lo] == '.' {
        return None;
    }
    let p = find_char_exec(t, lo, hi, '.');
    if p < hi {
        let q = find_char_exec(t, p + 1, hi, '.');
        if q < hi {
            return None;
        }
    }
    match digits_value_exec(t, lo, hi, u64::MAX) {
        None => None,
        Some(v) => {
            let decimals: usize = if p < hi {
                hi - p - 1
            } else {
                0
            };
            Some(Delay { units: v, decimals })
        },
    }
}

/// Reads the comma-separated delays of `[lo, hi)`.
pub fn parse_delays(t: &[char], lo: usize, hi: usize) -> (r: Option<Vec<Delay>>)
    requires
        lo <= hi <= t@.len(),
    ensures
        match r {
            Some(v) => delays_from(t@, lo as int, hi as int) == Some(v@),
            None => delays_from(t@, lo as int, hi as int) is None,
        },
{
    let mut out: Vec<Delay> = Vec::new();
    let mut i: usize = lo;
    loop
        invariant
            lo <= i <= hi <= t@.len(),
            delays_from(t@, lo as int, hi as int) == match delays_from(t@, i as int, hi as int) {
                Some(rest) => Some(out@ + rest),
                None => None,
            },
        decreases hi - i,
    {
        let e = find_char_exec(t, i, hi, ',');
        let a = skip_ws_exec(t, i, e);
        let b = trim_back_exec(t, a, e);
        let d = match parse_decimal(t, a, b) {
            None => return None,
            Some(d) => d,
        };
        proof {
            lemma_find_char(t@, i as int, hi as int, ',');
        }
        let ghost prev = out@;
        out.push(d);
        if e >= hi {
            proof {
                assert(delays_from(t@, i as int, hi as int) == Some(seq![d]));
                assert(out@ =~= prev + seq![d]);
            }
            return Some(out);
        }
        proof {
            match delays_from(t@, e + 1, hi as int) {
                Some(rest) => {
                    assert(prev + (seq![d] + rest) =~= out@ + rest);
                },
                None => {},
            }
        }
        i = e + 1;
    }
}

/// The parser's state while it reads the lines of a description.
struct MetaBuilder {
    version: String,
    width: Option<u16>,
    height: Option<u16>,
    done: Vec<IconState>,
    current: IconState,
    open: bool,
}

impl View for MetaBuilder {
    type V = MetaModel;

    closed spec fn view(&self) -> MetaModel {
        MetaModel {
            version: self.version@,
            width: self.width,
            height: self.height,
            done: states_view(self.done@),
            current: if self.open {
                Some(self.current@)
            } else {
                None
            },
        }
    }
}

/// `r` is the outcome that `spec` describes, with `after` as the state on success.
pub open spec fn outcome_is(
    r: Result<(), FormatError>,
    spec: Result<MetaModel, FormatError>,
    after: MetaModel,
) -> bool {
    match spec {
        Ok(m) => r is Ok && after == m,
        Err(e) => r == Err::<(), FormatError>(e),
    }
}

fn new_state(name: String) -> (r: IconState)
    ensures
        r@ == default_state(name@),
{
    IconState {
        name,
        direction_count: 1,
        frame_count: 1,
        rewinds: false,
        loop_count: 0,
        frame_delays: Vec::new(),
    }
}

proof fn lemma_states_view_push(s: Seq<IconState>, x: IconState)
    ensures
        states_view(s.push(x)) == states_view(s) + seq![x@],
{
    assert(states_view(s.push(x)) =~= states_view(s) + seq![x@]);
}

impl MetaBuilder {
    fn new() -> (r: MetaBuilder)
        ensures
            r@ == initial_model(),
    {
        let b = MetaBuilder {
            version: String::new(),
            width: None,
            height: None,
            done: Vec::new(),
            current: new_state(String::new()),
            open: false,
        };
        proof {
            assert(states_view(b.done@) =~= Seq::<IconStateView>::empty());
        }
        b
    }

    fn begin(&mut self, name: String)
        ensures
            final(self)@ == begin_state(old(self)@, name@),
    {
        let mut fresh = new_state(name);
        std::mem::swap(&mut self.current, &mut fresh);
        if self.open {
            proof {
                lemma_states_view_push(self.done@, fresh);
            }
            self.done.push(fresh);
        } else {
            assert(states_view(self.done@) + opt_seq(None) =~= states_view(self.done@));
        }
        self.open = true;
    }

    fn apply_field(&mut self, key: Key, t: &[char], va: usize, vb: usize, n: usize) -> (r: Result<
        (),
        FormatError,
    >)
        requires
            va <= vb <= t@.len(),
        ensures
            outcome_is(r, apply_field(old(self)@, key, t@, va as int, vb as int, n), final(self)@),
    {
        match key {
            Key::Version => {
                self.version = string_of(t, va, vb);
                Ok(())
            },
            Key::Width => {
                if self.open || self.width.is_some() {
                    return Err(FormatError::MisplacedField(n));
                }
                match parse_uint(t, va, vb, 65535) {
                    Some(v) => {
                        if v == 0 {
                            return Err(FormatError::InvalidValue(n));
                        }
                        self.width = Some(v as u16);
                        Ok(())
                    },
                    None => Err(FormatError::InvalidValue(n)),
                }
            },
            Key::Height => {
                if self.open || self.height.is_some() {
                    return Err(FormatError::MisplacedField(n));
                }
                match parse_uint(t, va, vb, 65535) {
                    Some(v) => {
                        if v == 0 {
                            return Err(FormatError::InvalidValue(n));
                        }
                        self.height = Some(v as u16);
                        Ok(())
                    },
                    None => Err(FormatError::InvalidValue(n)),
                }
            },
            Key::State => {
                if vb - va >= 2 && t[va] == '"' && t[vb - 1] == '"' {
                    let name = string_of(t, va + 1, vb - 1);
                    self.begin(name);
                    Ok(())
                } else {
                    Err(FormatError::InvalidValue(n))
                }
            },
            Key::Other => Ok(()),
            _ => {
                if !self.open {
                    return Err(FormatError::MisplacedField(n));
                }
                self.apply_state_field(key, t, va, vb, n)
            },
        }
    }

    fn apply_state_field(&mut self, key: Key, t: &[char], va: usize, vb: usize, n: usize) -> (r:
        Result<(), FormatError>)
        requires
            va <= vb <= t@.len(),
            old(self).open,
            key != Key::Version && key != Key::Width && key != Key::Height && key != Key::State
                && key != Key::Other,
        ensures
            outcome_is(r, apply_field(old(self)@, key, t@, va as int, vb as int, n), final(self)@),
    {
        match key {
            Key::Dirs => match parse_uint(t, va, vb, 8) {
                Some(v) => {
                    if v == 1 || v == 4 || v == 8 {
                        self.current.direction_count = v as u8;
                        Ok(())
                    } else {
                        Err(FormatError::InvalidDirection(n))
                    }
                },
                None => {
                    proof {
                        if is_uint(t@, va as int, vb as int) {
                            assert(digits_value(t@, va as int, vb as int) > 8);
                        }
                    }
                    Err(FormatError::InvalidDirection(n))
                },
            },
            Key::Frames => match parse_uint(t, va, vb, 255) {
                Some(v) => {
                    if v == 0 {
                        return Err(FormatError::InvalidValue(n));
                    }
                    let count = self.current.frame_delays.len();
                    if count > 0 && count as u64 != v {
                        return Err(FormatError::DelayMismatch(n));
                    }
                    self.current.frame_count = v as u8;
                    Ok(())
                },
                None => Err(FormatError::InvalidValue(n)),
            },
            Key::Delay => match parse_delays(t, va, vb) {
                Some(ds) => {
                    if ds.len() != self.current.frame_count as usize {
                        return Err(FormatError::DelayMismatch(n));
                    }
                    self.current.frame_delays = ds;
                    Ok(())
                },
                None => Err(FormatError::InvalidValue(n)),
            },
            Key::Loop => match parse_uint(t, va, vb, 255) {
                Some(v) => {
                    self.current.loop_count = v as u8;
                    Ok(())
                },
                None => Err(FormatError::InvalidValue(n)),
            },
            _ => match parse_uint(t, va, vb, 1) {
                Some(v) => {
                    self.current.rewinds = v == 1;
                    Ok(())
                },
                None => Err(FormatError::InvalidValue(n)),
            },
        }
    }

    /// Reads the line `t[lo..hi]`, numbered `n`.
    fn apply_line(&mut self, t: &[char], lo: usize, hi: usize, n: usize) -> (r: Result<
        (),
        FormatError,
    >)
        requires
            lo <= hi <= t@.len(),
        ensures
            outcome_is(r, step(old(self)@, t@, lo as int, hi as int, n), final(self)@),
    {
        let a = skip_ws_exec(t, lo, hi);
        let b = trim_back_exec(t, a, hi);
        if a == b || t[a] == '#' {
            return Ok(());
        }
        let eq = find_char_exec(t, a, b, '=');
        if eq == b {
            return Err(FormatError::MalformedLine(n));
        }
        let kb = trim_back_exec(t, a, eq);
        let va = skip_ws_exec(t, eq + 1, b);
        let key = key_at(t, a, kb);
        self.apply_field(key, t, va, b, n)
    }

    fn finish(self) -> (r: Result<IconFile, FormatError>)
        ensures
            file_result_view(r) == finish(self@),
    {
        let MetaBuilder { version, width, height, done, current, open } = self;
        let mut states = done;
        let ghost before = states@;
        if open {
            proof {
                lemma_states_view_push(states@, current);
            }
            states.push(current);
        } else {
            assert(states_view(before) + opt_seq(None) =~= states_view(before));
        }
        match (width, height) {
            (Some(w), Some(h)) => Ok(
                IconFile { version, cell_width: w, cell_height: h, states },
            ),
            _ => Err(FormatError::MissingDimensions),
        }
    }
}

/// Parses a description text into the icon file it describes.
pub fn parse_metadata(text: &str) -> (r: Result<IconFile, FormatError>)
    ensures
        file_result_view(r) == metadata_of(text@),
{
    let chars = chars_of(text);
    let t = chars.as_slice();
    let len = t.len();
    let mut b = MetaBuilder::new();
    let mut pos: usize = 0;
    let mut n: usize = 0;
    while pos < len
        invariant
            t@ == text@,
            len == t@.len(),
            n <= pos <= len,
            match run(initial_model(), t@, 0, 0) {
                Ok(st) => run(b@, t@, pos as int, n as nat) == Ok::<MetaModel, FormatError>(st),
                Err(e) => run(b@, t@, pos as int, n as nat) == Err::<MetaModel, FormatError>(e),
            },
        decreases len - pos,
    {
        let e = find_char_exec(t, pos, len, '\n');
        let line = b.apply_line(t, pos, e, n + 1);
        if line.is_err() {
            return Err(line.unwrap_err());
        }
        pos = if e < len {
            e + 1
        } else {
            len
        };
        n = n + 1;
    }
    b.finish()
}

} // verus!
