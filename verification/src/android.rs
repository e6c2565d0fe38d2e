//! The Android side: display bounds and the adb invocations that drive it.
use vstd::prelude::*;

use crate::command::{adb_command, adb_invocation, opt_view, CommandLine};
use crate::edge::Pointer;
use crate::text::{
    chars_of, decimal, decimal_string, find_char, first_index, is_digit, lemma_decimal_chars,
    lemma_first_index_append, lemma_parse_decimal_roundtrip, lemma_trim_identity, lines,
    parse_i32, parse_i32_at, split_once, starts_with_at, strip_cr, strip_prefix, trim,
    trim_range, trim_start,
};

verus! {

/// Size of the Android display in pixels.
#[derive(Clone, Copy, Debug, PartialEq, Eq, Structural)]
pub struct AndroidBounds {
    pub width: i32,
    pub height: i32,
}


/// A display size written `WIDTHxHEIGHT`, each side a decimal `i32` that may
/// be surrounded by whitespace.
pub open spec fn parse_size(size: Seq<char>) -> Option<AndroidBounds> {
    match split_once(size, 'x') {
        None => None,
        Some((w, h)) => match (parse_i32(trim(w)), parse_i32(trim(h))) {
            (Some(width), Some(height)) => Some(AndroidBounds { width, height }),
            _ => None,
        },
    }
}

/// The size reported on one line of `adb shell wm size`: a line that starts
/// with `Physical size:` or `Override size:`, followed by the size.
pub open spec fn parse_wm_line(line: Seq<char>) -> Option<AndroidBounds> {
    let rest = match strip_prefix(line, "Physical size:"@) {
        Some(r) => Some(r),
        None => strip_prefix(line, "Override size:"@),
    };
    match rest {
        Some(r) => parse_size(trim(r)),
        None => None,
    }
}

/// The size on the first line of `ls` that reports one.
pub open spec fn find_wm_size(ls: Seq<Seq<char>>) -> Option<AndroidBounds>
    decreases ls.len(),
{
    if ls.len() == 0 {
        None
    } else {
        match parse_wm_line(ls[0]) {
            Some(b) => Some(b),
            None => find_wm_size(ls.drop_first()),
        }
    }
}

/// The display size in the output of `adb shell wm size`: that of the first
/// line that reports one.
pub open spec fn spec_parse_wm_size(output: Seq<char>) -> Option<AndroidBounds> {
    find_wm_size(lines(output))
}

fn parse_size_at(v: &Vec<char>, lo: usize, hi: usize) -> (r: Option<AndroidBounds>)
    requires
        lo <= hi <= v.len(),
    ensures
        r == parse_size(v@.subrange(lo as int, hi as int)),
{
    let ghost s = v@.subrange(lo as int, hi as int);
    let i = find_char(v, lo, hi, 'x');
    if i == hi {
        return None;
    }
    assert(s.take(i - lo) =~= v@.subrange(lo as int, i as int));
    assert(s.skip(i - lo + 1) =~= v@.subrange(i + 1, hi as int));
    let (a, b) = trim_range(v, lo, i);
    let width = parse_i32_at(v, a, b);
    let (c, d) = trim_range(v, i + 1, hi);
    let height = parse_i32_at(v, c, d);
    match (width, height) {
        (Some(width), Some(height)) => Some(AndroidBounds { width, height }),
        _ => None,
    }
}

fn parse_wm_line_at(
    v: &Vec<char>,
    lo: usize,
    hi: usize,
    physical: &Vec<char>,
    overridden: &Vec<char>,
) -> (r: Option<AndroidBounds>)
    requires
        lo <= hi <= v.len(),
        physical@ == "Physical size:"@,
        overridden@ == "Override size:"@,
    ensures
        r == parse_wm_line(v@.subrange(lo as int, hi as int)),
{
    let ghost s = v@.subrange(lo as int, hi as int);
    let start = if starts_with_at(v, lo, hi, physical) {
        lo + physical.len()
    } else if starts_with_at(v, lo, hi, overridden) {
        lo + overridden.len()
    } else {
        return None;
    };
    assert(s.skip(start - lo) =~= v@.subrange(start as int, hi as int));
    let (a, b) = trim_range(v, start, hi);
    parse_size_at(v, a, b)
}

/// The display size in the output of `adb shell wm size`, if a line reports
/// one.
pub fn parse_wm_size(output: &str) -> (r: Option<AndroidBounds>)
    ensures
        r == spec_parse_wm_size(output@),
{
    let v = chars_of(output);
    let physical = chars_of("Physical size:");
    let overridden = chars_of("Override size:");
    let n = v.len();
    let mut start: usize = 0;
    assert(v@.skip(0) =~= v@);
    while start < n
        invariant
            n == v@.len(),
            0 <= start <= n,
            v@ == output@,
            physical@ == "Physical size:"@,
            overridden@ == "Override size:"@,
            spec_parse_wm_size(output@) == spec_parse_wm_size(v@.skip(start as int)),
        decreases n - start,
    {
        let ghost rest = v@.skip(start as int);
        let nl = find_char(&v, start, n, '\n');
        assert(rest =~= v@.subrange(start as int, n as int));
        if nl == n {
            assert(lines(rest) =~= seq![rest]);
            assert(find_wm_size(seq![rest]) == match parse_wm_line(rest) {
                Some(b) => Some(b),
                None => find_wm_size(seq![rest].drop_first()),
            });
            assert(seq![rest].drop_first() =~= Seq::<Seq<char>>::empty());
            return parse_wm_line_at(&v, start, n, &physical, &overridden);
        }
        let end = if nl > start && v[nl - 1] == '\r' {
            nl - 1
        } else {
            nl
        };
        let ghost line = strip_cr(rest.take(nl - start));
        assert(line =~= v@.subrange(start as int, end as int));
        assert(rest.skip(nl - start + 1) =~= v@.skip(nl + 1));
        let ghost ls = lines(rest);
        assert(ls =~= seq![line] + lines(v@.skip(nl + 1)));
        assert(ls[0] == line);
        assert(ls.drop_first() =~= lines(v@.skip(nl + 1)));
        let found = parse_wm_line_at(&v, start, end, &physical, &overridden);
        if found.is_some() {
            return found;
        }
        start = nl + 1;
    }
    assert(v@.skip(n as int) =~= Seq::<char>::empty());
    None
}


/// The line `adb shell wm size` prints for a display of `width` by `height`.
pub open spec fn wm_size_report(width: i32, height: i32) -> Seq<char> {
    "Physical size:"@ + seq![' '] + decimal(width as int) + seq!['x'] + decimal(height as int)
}

/// Law: the size in a `Physical size: WxH` report is read back exactly.
pub proof fn lemma_wm_size_roundtrip(width: i32, height: i32)
    ensures
        spec_parse_wm_size(wm_size_report(width, height)) == Some(
            AndroidBounds { width, height },
        ),
{
    reveal_strlit("Physical size:");
    let p = "Physical size:"@;
    let dw = decimal(width as int);
    let dh = decimal(height as int);
    let size = dw + seq!['x'] + dh;
    let rest = seq![' '] + size;
    let t = wm_size_report(width, height);
    assert(t =~= p + rest);
    lemma_decimal_chars(width as int);
    lemma_decimal_chars(height as int);
    lemma_parse_decimal_roundtrip(width);
    lemma_parse_decimal_roundtrip(height);
    assert forall|i: int| 0 <= i < t.len() implies t[i] != '\n' by {
        if i < p.len() {
            assert(t[i] == p[i]);
        } else if i == p.len() {
            assert(t[i] == ' ');
        } else if i < p.len() + 1 + dw.len() {
            assert(t[i] == dw[i - p.len() - 1]);
        } else if i == p.len() + 1 + dw.len() {
            assert(t[i] == 'x');
        } else {
            assert(t[i] == dh[i - p.len() - 2 - dw.len()]);
        }
    }
    lemma_first_index_append(t, Seq::<char>::empty(), '\n');
    assert(t + Seq::<char>::empty() =~= t);
    assert(lines(t) =~= seq![t]);
    assert(seq![t].drop_first() =~= Seq::<Seq<char>>::empty());
    assert(t.take(p.len() as int) =~= p);
    assert(t.skip(p.len() as int) =~= rest);
    assert(strip_prefix(t, p) == Some(rest));
    assert(rest.drop_first() =~= size);
    assert(trim_start(rest) == trim_start(size));
    assert(size[0] == dw[0]);
    assert(size.last() == dh.last());
    lemma_trim_identity(size);
    assert(trim(rest) == size);
    assert forall|i: int| 0 <= i < dw.len() implies dw[i] != 'x' by {
        assert(is_digit(dw[i]) || dw[i] == '-');
    }
    lemma_first_index_append(dw, seq!['x'] + dh, 'x');
    assert(size =~= dw + (seq!['x'] + dh));
    assert((seq!['x'] + dh)[0] == 'x');
    assert(first_index(size, 'x') == dw.len());
    assert(size.take(dw.len() as int) =~= dw);
    assert(size.skip(dw.len() + 1int) =~= dh);
    lemma_trim_identity(dw);
    lemma_trim_identity(dh);
}

/// The abstract state of an [`AndroidInput`].
pub struct AndroidInputView {
    pub adb: Seq<char>,
    pub serial: Option<Seq<char>>,
    pub bounds: AndroidBounds,
}

/// Drives the Android pointer through `adb shell input`.
#[derive(Clone, Debug)]
pub struct AndroidInput {
    adb: String,
    serial: Option<String>,
    bounds: AndroidBounds,
}

/// Why the display size could not be detected.
#[derive(Clone, Copy, Debug, PartialEq, Eq, Structural)]
pub enum DetectBoundsError {
    /// `adb shell wm size` exited unsuccessfully.
    CommandFailed,
    /// Its output reports no display size.
    Unparsable,
}

/// The view of an optional string.
pub open spec fn opt_string_view(s: Option<String>) -> Option<Seq<char>> {
    match s {
        Some(s) => Some(s@),
        None => None,
    }
}

fn opt_as_str(s: &Option<String>) -> (r: Option<&str>)
    ensures
        opt_view(r) == opt_string_view(*s),
{
    match s {
        Some(s) => Some(s.as_str()),
        None => None,
    }
}

/// `n` clamped to `[0, max]`.
pub open spec fn clamp_to(n: i32, max: int) -> int {
    if n < 0 {
        0
    } else if n > max {
        max
    } else {
        n as int
    }
}

/// The arguments of `adb shell input mouse motionevent MOVE X Y`.
pub open spec fn move_args(x: int, y: int) -> Seq<Seq<char>> {
    seq!["shell"@, "input"@, "mouse"@, "motionevent"@, "MOVE"@, decimal(x), decimal(y)]
}

/// The arguments of `adb shell wm size`.
pub open spec fn wm_size_args() -> Seq<Seq<char>> {
    seq!["shell"@, "wm"@, "size"@]
}

impl View for AndroidInput {
    type V = AndroidInputView;

    closed spec fn view(&self) -> AndroidInputView {
        AndroidInputView {
            adb: self.adb@,
            serial: opt_string_view(self.serial),
            bounds: self.bounds,
        }
    }
}

impl AndroidInput {
    /// Input through the adb binary `adb`, to the device `serial` when given,
    /// on a display of size `bounds`.
    pub fn new(adb: String, serial: Option<String>, bounds: AndroidBounds) -> (input: Self)
        ensures
            input@.adb == adb@,
            input@.serial == opt_string_view(serial),
            input@.bounds == bounds,
    {
        AndroidInput { adb, serial, bounds }
    }

    /// The size of the Android display.
    pub fn bounds(&self) -> (b: AndroidBounds)
        ensures
            b == self@.bounds,
    {
        self.bounds
    }

    /// The adb command that moves the Android pointer to `pointer`, clamped
    /// to the display.
    pub fn move_pointer(&self, pointer: Pointer) -> (c: CommandLine)
        requires
            self@.bounds.width >= 1,
            self@.bounds.height >= 1,
        ensures
            c@ == adb_invocation(
                self@.adb,
                self@.serial,
                move_args(
                    clamp_to(pointer.x, self@.bounds.width - 1),
                    clamp_to(pointer.y, self@.bounds.height - 1),
                ),
            ),
    {
        let max_x = self.bounds.width - 1;
        let max_y = self.bounds.height - 1;
        let x = if pointer.x < 0 {
            0
        } else if pointer.x > max_x {
            max_x
        } else {
            pointer.x
        };
        let y = if pointer.y < 0 {
            0
        } else if pointer.y > max_y {
            max_y
        } else {
            pointer.y
        };
        let mut c = adb_command(self.adb.as_str(), opt_as_str(&self.serial));
        c.arg("shell");
        c.arg("input");
        c.arg("mouse");
        c.arg("motionevent");
        c.arg("MOVE");
        c.arg_string(decimal_string(x as i64));
        c.arg_string(decimal_string(y as i64));
        assert(c@.args =~= adb_invocation(self@.adb, self@.serial, move_args(x as int, y as int)).args);
        c
    }

    /// The adb command that reports the display size: `adb shell wm size`.
    pub fn detect_bounds_command(adb: &str, serial: Option<&str>) -> (c: CommandLine)
        ensures
            c@ == adb_invocation(adb@, opt_view(serial), wm_size_args()),
    {
        let mut c = adb_command(adb, serial);
        c.arg("shell");
        c.arg("wm");
        c.arg("size");
        assert(c@.args =~= adb_invocation(adb@, opt_view(serial), wm_size_args()).args);
        c
    }

    /// The display size assumed when it cannot be detected: 1080 by 2400.
    pub fn fallback_bounds() -> (b: AndroidBounds)
        ensures
            b == (AndroidBounds { width: 1080, height: 2400 }),
    {
        AndroidBounds { width: 1080, height: 2400 }
    }

    /// The display size to use: the detected one, or the fallback when
    /// detection failed.
    pub fn bounds_or_fallback(detected: Option<AndroidBounds>) -> (b: AndroidBounds)
        ensures
            b == match detected {
                Some(d) => d,
                None => AndroidBounds { width: 1080, height: 2400 },
            },
    {
        match detected {
            Some(d) => d,
            None => Self::fallback_bounds(),
        }
    }

    /// The display size from the outcome of the `wm size` command: whether it
    /// exited successfully, and its output.
    pub fn detect_bounds(succeeded: bool, stdout: &str) -> (r: Result<AndroidBounds, DetectBoundsError>)
        ensures
            !succeeded ==> r == Err::<AndroidBounds, DetectBoundsError>(DetectBoundsError::CommandFailed),
            succeeded ==> r == match spec_parse_wm_size(stdout@) {
                Some(b) => Ok(b),
                None => Err(DetectBoundsError::Unparsable),
            },
    {
        if !succeeded {
            return Err(DetectBoundsError::CommandFailed);
        }
        match parse_wm_size(stdout) {
            Some(b) => Ok(b),
            None => Err(DetectBoundsError::Unparsable),
        }
    }
}

} // verus!
