//! The scrcpy control protocol: UHID messages that create a virtual mouse on
//! the device, report its motion and destroy it again.
use vstd::prelude::*;
use vstd::string::*;

use crate::command::{adb_command, adb_invocation, opt_view, CommandLine};
use crate::text::{
    chars_of, decimal, decimal_string, find_char, hex8_string, hex_fixed, lines,
    skip_ws, strip_cr, word_end, words, no_whitespace, is_whitespace, first_index,
    lemma_first_index_append, lemma_words_second,
};

verus! {

/// Message type of a UHID "create device" control message.
pub const TYPE_UHID_CREATE: u8 = 12;

/// Message type of a UHID "input report" control message.
pub const TYPE_UHID_INPUT: u8 = 13;

/// Message type of a UHID "destroy device" control message.
pub const TYPE_UHID_DESTROY: u8 = 14;

/// The UHID device id used for the mouse.
pub const HID_ID_MOUSE: u16 = 2;

/// HID report descriptor of a five-button mouse with relative X, Y and wheel
/// axes and a horizontal wheel.
pub const MOUSE_REPORT_DESC: [u8; 67] = [
    0x05, 0x01, 0x09, 0x02, 0xA1, 0x01, 0x09, 0x01, 0xA1, 0x00, 0x05, 0x09, 0x19, 0x01, 0x29, 0x05,
    0x15, 0x00, 0x25, 0x01, 0x95, 0x05, 0x75, 0x01, 0x81, 0x02, 0x95, 0x01, 0x75, 0x03, 0x81, 0x01,
    0x05, 0x01, 0x09, 0x30, 0x09, 0x31, 0x09, 0x38, 0x15, 0x81, 0x25, 0x7F, 0x75, 0x08, 0x95, 0x03,
    0x81, 0x06, 0x05, 0x0C, 0x0A, 0x38, 0x02, 0x15, 0x81, 0x25, 0x7F, 0x75, 0x08, 0x95, 0x01, 0x81,
    0x06, 0xC0, 0xC0,
];

/// The two bytes of `value`, most significant first.
pub open spec fn be16(value: u16) -> Seq<u8> {
    seq![(value / 256) as u8, (value % 256) as u8]
}

/// The value whose big-endian bytes are `bytes`.
pub open spec fn from_be16(bytes: Seq<u8>) -> int {
    bytes[0] * 256 + bytes[1]
}

/// The message that creates the UHID mouse: type, device id, vendor and
/// product id (both zero), an empty name, then the report descriptor with its
/// length in front.
pub open spec fn create_message() -> Seq<u8> {
    seq![TYPE_UHID_CREATE] + be16(HID_ID_MOUSE) + be16(0) + be16(0) + seq![0u8] + be16(
        MOUSE_REPORT_DESC@.len() as u16,
    ) + MOUSE_REPORT_DESC@
}

/// The message that destroys the UHID mouse.
pub open spec fn destroy_message() -> Seq<u8> {
    seq![TYPE_UHID_DESTROY] + be16(HID_ID_MOUSE)
}

/// The five bytes of a mouse input report: buttons, relative x, relative y,
/// and the two wheels at rest.
pub open spec fn report(buttons: u8, dx: i8, dy: i8) -> Seq<u8> {
    seq![buttons, dx as u8, dy as u8, 0u8, 0u8]
}

/// The message that carries one input report of the UHID mouse.
pub open spec fn input_message(data: Seq<u8>) -> Seq<u8> {
    seq![TYPE_UHID_INPUT] + be16(HID_ID_MOUSE) + be16(data.len() as u16) + data
}

/// One input message per motion step, in order.
pub open spec fn motion_messages(buttons: u8, parts: Seq<(i8, i8)>) -> Seq<u8>
    decreases parts.len(),
{
    if parts.len() == 0 {
        Seq::empty()
    } else {
        motion_messages(buttons, parts.drop_last()) + input_message(
            report(buttons, parts.last().0, parts.last().1),
        )
    }
}

/// `|n|`.
pub open spec fn abs(n: int) -> int {
    if n < 0 {
        -n
    } else {
        n
    }
}

/// `a / b` with Rust's rounding toward zero, for `b > 0`.
pub open spec fn tdiv(a: int, b: int) -> int {
    if a >= 0 {
        a / b
    } else {
        -((-a) / b)
    }
}

/// Number of reports a motion of `(dx, dy)` is split into: enough that no
/// step exceeds 127 on either axis, and at least one.
pub open spec fn motion_steps(dx: i32, dy: i32) -> int {
    let m = if abs(dx as int) >= abs(dy as int) {
        abs(dx as int)
    } else {
        abs(dy as int)
    };
    if (m + 126) / 127 >= 1 {
        (m + 126) / 127
    } else {
        1
    }
}

/// `n` clamped to the range of a relative HID axis.
pub open spec fn clamp127(n: int) -> i8 {
    if n < -127 {
        -127i8
    } else if n > 127 {
        127i8
    } else {
        n as i8
    }
}

/// The motion can be split without `i32` overflow.
pub open spec fn motion_fits(dx: i32, dy: i32) -> bool {
    &&& abs(dx as int) <= i32::MAX - 126
    &&& abs(dy as int) <= i32::MAX - 126
    &&& (motion_steps(dx, dy) - 1) * abs(dx as int) <= i32::MAX
    &&& (motion_steps(dx, dy) - 1) * abs(dy as int) <= i32::MAX
}

/// The steps that send the motion `(rx, ry)` still unsent in `k` reports:
/// each step sends the unsent motion divided by the number of reports left,
/// so that the last step sends all that remains.
pub open spec fn split_remaining(rx: int, ry: int, k: nat) -> Seq<(i8, i8)>
    decreases k,
{
    if k == 0 {
        Seq::empty()
    } else {
        seq![(clamp127(tdiv(rx, k as int)), clamp127(tdiv(ry, k as int)))] + split_remaining(
            rx - tdiv(rx, k as int),
            ry - tdiv(ry, k as int),
            (k - 1) as nat,
        )
    }
}

/// The steps of a motion of `(dx, dy)`.
pub open spec fn spec_split_motion(dx: i32, dy: i32) -> Seq<(i8, i8)> {
    split_remaining(dx as int, dy as int, motion_steps(dx, dy) as nat)
}

/// Sum of the x steps.
pub open spec fn sum_x(parts: Seq<(i8, i8)>) -> int
    decreases parts.len(),
{
    if parts.len() == 0 {
        0
    } else {
        parts[0].0 + sum_x(parts.drop_first())
    }
}

/// Sum of the y steps.
pub open spec fn sum_y(parts: Seq<(i8, i8)>) -> int
    decreases parts.len(),
{
    if parts.len() == 0 {
        0
    } else {
        parts[0].1 + sum_y(parts.drop_first())
    }
}

proof fn lemma_share(r: int, k: int)
    requires
        k >= 1,
        abs(r) <= 127 * k,
    ensures
        -127 <= tdiv(r, k) <= 127,
        abs(r - tdiv(r, k)) <= 127 * (k - 1),
{
    let n = abs(r);
    let q = n / k;
    let m = n % k;
    assert(n == q * k + m && 0 <= m < k) by (nonlinear_arith)
        requires
            k >= 1,
            n >= 0,
            q == n / k,
            m == n % k,
    ;
    assert(q <= 127) by (nonlinear_arith)
        requires
            n == q * k + m,
            0 <= m,
            k >= 1,
            n <= 127 * k,
    ;
    assert(q >= 0) by (nonlinear_arith)
        requires
            n >= 0,
            k >= 1,
            q == n / k,
    ;
    assert(n - q <= 127 * (k - 1)) by (nonlinear_arith)
        requires
            n == q * k + m,
            0 <= m < k,
            0 <= q <= 127,
            n <= 127 * k,
    ;
    if r >= 0 {
        assert(tdiv(r, k) == q);
    } else {
        assert(tdiv(r, k) == -q);
    }
}

proof fn lemma_split_remaining(rx: int, ry: int, k: nat)
    requires
        abs(rx) <= 127 * k,
        abs(ry) <= 127 * k,
    ensures
        split_remaining(rx, ry, k).len() == k,
        sum_x(split_remaining(rx, ry, k)) == rx,
        sum_y(split_remaining(rx, ry, k)) == ry,
    decreases k,
{
    let parts = split_remaining(rx, ry, k);
    if k > 0 {
        lemma_share(rx, k as int);
        lemma_share(ry, k as int);
        let x = tdiv(rx, k as int);
        let y = tdiv(ry, k as int);
        lemma_split_remaining(rx - x, ry - y, (k - 1) as nat);
        let rest = split_remaining(rx - x, ry - y, (k - 1) as nat);
        assert(parts.drop_first() =~= rest);
        assert(parts[0] == (clamp127(x), clamp127(y)));
    }
}

proof fn lemma_steps_cover(dx: i32, dy: i32)
    ensures
        motion_steps(dx, dy) >= 1,
        abs(dx as int) <= 127 * motion_steps(dx, dy),
        abs(dy as int) <= 127 * motion_steps(dx, dy),
{
    let m = if abs(dx as int) >= abs(dy as int) {
        abs(dx as int)
    } else {
        abs(dy as int)
    };
    assert(127 * ((m + 126) / 127) >= m) by (nonlinear_arith)
        requires
            m >= 0,
    ;
}

/// Law: the steps of a motion add up to the whole motion on each axis.
pub proof fn lemma_split_sums_to_motion(dx: i32, dy: i32)
    requires
        motion_fits(dx, dy),
    ensures
        spec_split_motion(dx, dy).len() == motion_steps(dx, dy),
        sum_x(spec_split_motion(dx, dy)) == dx,
        sum_y(spec_split_motion(dx, dy)) == dy,
{
    lemma_steps_cover(dx, dy);
    lemma_split_remaining(dx as int, dy as int, motion_steps(dx, dy) as nat);
}

/// Law: a motion of at most 127 on each axis is sent as a single step that
/// carries the whole motion.
pub proof fn lemma_small_motion_single_step(dx: i32, dy: i32)
    requires
        -127 <= dx <= 127,
        -127 <= dy <= 127,
    ensures
        spec_split_motion(dx, dy) == seq![(dx as i8, dy as i8)],
{
    assert(motion_steps(dx, dy) == 1);
    assert(split_remaining(dx as int - dx, dy as int - dy, 0) == Seq::<(i8, i8)>::empty());
    assert(spec_split_motion(dx, dy) =~= seq![(dx as i8, dy as i8)]);
}

fn clamp_axis(n: i32) -> (r: i8)
    ensures
        r == clamp127(n as int),
{
    if n < -127 {
        -127
    } else if n > 127 {
        127
    } else {
        n as i8
    }
}

/// Whether a motion of `(dx, dy)` can be split without `i32` overflow.
pub fn can_split_motion(dx: i32, dy: i32) -> (b: bool)
    ensures
        b == motion_fits(dx, dy),
{
    let ax: i64 = if dx < 0 {
        -(dx as i64)
    } else {
        dx as i64
    };
    let ay: i64 = if dy < 0 {
        -(dy as i64)
    } else {
        dy as i64
    };
    if ax > 2147483647 - 126 || ay > 2147483647 - 126 {
        return false;
    }
    let m: i64 = if ax >= ay {
        ax
    } else {
        ay
    };
    let q: i64 = (m + 126) / 127;
    let steps: i64 = if q >= 1 {
        q
    } else {
        1
    };
    assert(steps == motion_steps(dx, dy));
    assert((steps - 1) * ax <= 0x7fff_ffffi64 * 0x7fff_ffffi64) by (nonlinear_arith)
        requires
            0 <= steps - 1 <= 0x7fff_ffff,
            0 <= ax <= 0x7fff_ffff,
    ;
    assert((steps - 1) * ay <= 0x7fff_ffffi64 * 0x7fff_ffffi64) by (nonlinear_arith)
        requires
            0 <= steps - 1 <= 0x7fff_ffff,
            0 <= ay <= 0x7fff_ffff,
    ;
    assert(0 <= (steps - 1) * ax) by (nonlinear_arith)
        requires
            0 <= steps - 1,
            0 <= ax,
    ;
    assert(0 <= (steps - 1) * ay) by (nonlinear_arith)
        requires
            0 <= steps - 1,
            0 <= ay,
    ;
    (steps - 1) * ax <= 2147483647 && (steps - 1) * ay <= 2147483647
}

/// Splits a motion of `(dx, dy)` into steps that each fit a HID report and
/// that together send the whole motion.
pub fn split_motion(dx: i32, dy: i32) -> (parts: Vec<(i8, i8)>)
    requires
        motion_fits(dx, dy),
    ensures
        parts@ == spec_split_motion(dx, dy),
        parts@.len() == motion_steps(dx, dy),
        sum_x(parts@) == dx,
        sum_y(parts@) == dy,
{
    proof {
        lemma_split_sums_to_motion(dx, dy);
        lemma_steps_cover(dx, dy);
    }
    let ax: i32 = if dx < 0 {
        -dx
    } else {
        dx
    };
    let ay: i32 = if dy < 0 {
        -dy
    } else {
        dy
    };
    let m: i32 = if ax >= ay {
        ax
    } else {
        ay
    };
    let q: i32 = (m + 126) / 127;
    let steps: i32 = if q >= 1 {
        q
    } else {
        1
    };
    assert(steps == motion_steps(dx, dy));
    let mut parts: Vec<(i8, i8)> = Vec::new();
    let mut rx: i32 = dx;
    let mut ry: i32 = dy;
    let mut left: i32 = steps;
    while left > 0
        invariant
            0 <= left <= steps,
            abs(rx as int) <= 127 * left,
            abs(ry as int) <= 127 * left,
            parts@ + split_remaining(rx as int, ry as int, left as nat) == spec_split_motion(
                dx,
                dy,
            ),
        decreases left,
    {
        proof {
            lemma_share(rx as int, left as int);
            lemma_share(ry as int, left as int);
        }
        let x = rx / left;
        let y = ry / left;
        let ghost before = split_remaining(rx as int, ry as int, left as nat);
        let ghost p = (clamp127(x as int), clamp127(y as int));
        let ghost done = parts@;
        parts.push((clamp_axis(x), clamp_axis(y)));
        rx = rx - x;
        ry = ry - y;
        left = left - 1;
        proof {
            assert(before =~= seq![p] + split_remaining(rx as int, ry as int, left as nat));
            assert(parts@ + split_remaining(rx as int, ry as int, left as nat) =~= done + before);
        }
    }
    assert(parts@ + split_remaining(rx as int, ry as int, 0) =~= parts@);
    parts
}

/// Law: the motion output is one ten-byte input message per step, and the
/// `k`-th message carries the `k`-th step.
pub proof fn lemma_motion_messages_framing(buttons: u8, parts: Seq<(i8, i8)>)
    ensures
        motion_messages(buttons, parts).len() == 10 * parts.len(),
        forall|k: int|
            0 <= k < parts.len() ==> #[trigger] motion_messages(buttons, parts).subrange(
                10 * k,
                10 * k + 10,
            ) == input_message(report(buttons, parts[k].0, parts[k].1)),
    decreases parts.len(),
{
    if parts.len() > 0 {
        let init = parts.drop_last();
        lemma_motion_messages_framing(buttons, init);
        let prev = motion_messages(buttons, init);
        let last = input_message(report(buttons, parts.last().0, parts.last().1));
        let all = motion_messages(buttons, parts);
        assert(all == prev + last);
        assert(last.len() == 10);
        assert forall|k: int| 0 <= k < parts.len() implies #[trigger] all.subrange(10 * k, 10 * k + 10)
            == input_message(report(buttons, parts[k].0, parts[k].1)) by {
            if k < init.len() {
                assert(parts[k] == init[k]);
                assert(prev.subrange(10 * k, 10 * k + 10) == input_message(
                    report(buttons, init[k].0, init[k].1),
                ));
                assert(all.subrange(10 * k, 10 * k + 10) =~= prev.subrange(10 * k, 10 * k + 10));
            } else {
                assert(all.subrange(10 * k, 10 * k + 10) =~= last);
            }
        }
    }
}

/// Appends the big-endian bytes of `value` to `buf`.
pub fn write_u16(buf: &mut Vec<u8>, value: u16)
    ensures
        final(buf)@ == old(buf)@ + be16(value),
{
    buf.push((value / 256) as u8);
    buf.push((value % 256) as u8);
    assert(final(buf)@ =~= old(buf)@ + be16(value));
}

/// Law: the two bytes written for a `u16` give the value back.
pub proof fn lemma_be16_roundtrip(value: u16)
    ensures
        be16(value).len() == 2,
        from_be16(be16(value)) == value,
{
}

/// The abstract state of a [`ScrcpyControl`]: the bytes written so far and
/// the mouse buttons currently held.
pub struct ScrcpyControlView {
    pub output: Seq<u8>,
    pub buttons: u8,
}

/// Writer of scrcpy control messages for a UHID mouse. Messages are appended
/// to an output buffer, which the caller sends over the control socket.
pub struct ScrcpyControl {
    writer: Vec<u8>,
    buttons: u8,
}

impl View for ScrcpyControl {
    type V = ScrcpyControlView;

    closed spec fn view(&self) -> ScrcpyControlView {
        ScrcpyControlView { output: self.writer@, buttons: self.buttons }
    }
}

impl ScrcpyControl {
    /// A control that appends to `writer`, with no button held.
    pub fn new(writer: Vec<u8>) -> (c: Self)
        ensures
            c@.output == writer@,
            c@.buttons == 0,
    {
        ScrcpyControl { writer, buttons: 0 }
    }

    /// Writes the message that creates the UHID mouse on the device.
    pub fn create_mouse(&mut self)
        ensures
            final(self)@.output == old(self)@.output + create_message(),
            final(self)@.buttons == old(self)@.buttons,
    {
        let mut msg: Vec<u8> = Vec::with_capacity(1 + 2 + 2 + 2 + 1 + 2 + MOUSE_REPORT_DESC.len());
        msg.push(TYPE_UHID_CREATE);
        write_u16(&mut msg, HID_ID_MOUSE);
        write_u16(&mut msg, 0);
        write_u16(&mut msg, 0);
        msg.push(0);
        write_u16(&mut msg, MOUSE_REPORT_DESC.len() as u16);
        msg.extend_from_slice(&MOUSE_REPORT_DESC);
        assert(msg@ =~= create_message());
        self.writer.append(&mut msg);
    }

    /// Writes the input reports that move the mouse by `(dx, dy)`, one per
    /// step of [`split_motion`].
    pub fn move_mouse(&mut self, dx: i32, dy: i32)
        requires
            motion_fits(dx, dy),
        ensures
            final(self)@.output == old(self)@.output + motion_messages(
                old(self)@.buttons,
                spec_split_motion(dx, dy),
            ),
            final(self)@.buttons == old(self)@.buttons,
    {
        let parts = split_motion(dx, dy);
        let mut i: usize = 0;
        while i < parts.len()
            invariant
                0 <= i <= parts.len(),
                parts@ == spec_split_motion(dx, dy),
                self.buttons == old(self)@.buttons,
                self.writer@ == old(self)@.output + motion_messages(
                    old(self)@.buttons,
                    parts@.take(i as int),
                ),
            decreases parts.len() - i,
        {
            let (x, y) = parts[i];
            let data: [u8; 5] = [self.buttons, x as u8, y as u8, 0, 0];
            assert(data@ =~= report(self.buttons, x, y));
            self.input(data);
            assert(parts@.take(i + 1).drop_last() =~= parts@.take(i as int));
            i = i + 1;
        }
        assert(parts@.take(parts.len() as int) =~= parts@);
    }

    /// Writes the message that destroys the UHID mouse.
    pub fn destroy_mouse(&mut self)
        ensures
            final(self)@.output == old(self)@.output + destroy_message(),
            final(self)@.buttons == old(self)@.buttons,
    {
        let mut msg: Vec<u8> = Vec::with_capacity(3);
        msg.push(TYPE_UHID_DESTROY);
        write_u16(&mut msg, HID_ID_MOUSE);
        assert(msg@ =~= destroy_message());
        self.writer.append(&mut msg);
    }

    fn input(&mut self, data: [u8; 5])
        ensures
            final(self)@.output == old(self)@.output + input_message(data@),
            final(self)@.buttons == old(self)@.buttons,
    {
        let mut msg: Vec<u8> = Vec::with_capacity(10);
        msg.push(TYPE_UHID_INPUT);
        write_u16(&mut msg, HID_ID_MOUSE);
        write_u16(&mut msg, 5);
        msg.extend_from_slice(&data);
        assert(msg@ =~= input_message(data@));
        self.writer.append(&mut msg);
    }

    /// The bytes written and not yet taken.
    pub fn output(&self) -> (out: &Vec<u8>)
        ensures
            out@ == self@.output,
    {
        &self.writer
    }

    /// Hands out the bytes written so far and starts a new, empty output.
    pub fn take_output(&mut self) -> (out: Vec<u8>)
        ensures
            out@ == old(self)@.output,
            final(self)@.output == Seq::<u8>::empty(),
            final(self)@.buttons == old(self)@.buttons,
    {
        let mut out: Vec<u8> = Vec::new();
        std::mem::swap(&mut out, &mut self.writer);
        out
    }
}


/// The scrcpy connection id made from the random value `random`: scrcpy
/// takes a non-negative 31-bit id, so the top bit is dropped.
pub fn scid_from_random(random: u32) -> (scid: u32)
    ensures
        scid == random % 0x8000_0000,
{
    random % 0x8000_0000
}

/// The scrcpy server to push: the configured path, else the one named by the
/// environment, else none (the caller then looks beside the scrcpy binary).
pub fn choose_server_path(configured: Option<String>, from_env: Option<String>) -> (p: Option<
    String,
>)
    ensures
        p == match configured {
            Some(c) => Some(c),
            None => from_env,
        },
{
    match configured {
        Some(c) => Some(c),
        None => from_env,
    }
}

/// Where the scrcpy server is pushed on the device.
pub open spec fn device_server_path() -> Seq<char> {
    "/data/local/tmp/scrcpy-server.jar"@
}

/// The abstract name of the local socket for connection id `scid`:
/// `scrcpy_` and the id in eight hexadecimal digits.
pub open spec fn spec_socket_name(scid: u32) -> Seq<char> {
    "scrcpy_"@ + hex_fixed(scid as nat, 8)
}

/// The name of the local socket for connection id `scid`.
pub fn socket_name(scid: u32) -> (s: String)
    ensures
        s@ == spec_socket_name(scid),
{
    let mut s = String::from_str("scrcpy_");
    let hex = hex8_string(scid);
    s.append(hex.as_str());
    s
}

/// The arguments that push the scrcpy server from `server_path` to the device.
pub open spec fn push_args(server_path: Seq<char>) -> Seq<Seq<char>> {
    seq!["push"@, server_path, device_server_path()]
}

/// The arguments that tunnel the device socket `socket_name` to local TCP `port`.
pub open spec fn reverse_args(socket_name: Seq<char>, port: u16) -> Seq<Seq<char>> {
    seq!["reverse"@, "localabstract:"@ + socket_name, "tcp:"@ + decimal(port as int)]
}

/// The arguments that remove the tunnel of `socket_name`.
pub open spec fn reverse_remove_args(socket_name: Seq<char>) -> Seq<Seq<char>> {
    seq!["reverse"@, "--remove"@, "localabstract:"@ + socket_name]
}

/// The arguments that start the scrcpy server of version `version` with
/// connection id `scid`: control only, no video, audio or metadata.
pub open spec fn server_args(version: Seq<char>, scid: u32) -> Seq<Seq<char>> {
    seq![
        "shell"@,
        "CLASSPATH="@ + device_server_path(),
        "app_process"@,
        "/"@,
        "com.genymobile.scrcpy.Server"@,
        version,
        "scid="@ + hex_fixed(scid as nat, 8),
        "log_level=info"@,
        "video=false"@,
        "audio=false"@,
        "control=true"@,
        "send_dummy_byte=false"@,
        "send_device_meta=false"@,
        "send_frame_meta=false"@,
        "clipboard_autosync=false"@,
        "cleanup=false"@,
        "power_on=false"@,
    ]
}

fn concat(a: &str, b: &str) -> (s: String)
    ensures
        s@ == a@ + b@,
{
    let mut s = String::from_str(a);
    s.append(b);
    s
}

/// `adb push SERVER_PATH /data/local/tmp/scrcpy-server.jar`.
pub fn server_push_command(adb: &str, serial: Option<&str>, server_path: &str) -> (c: CommandLine)
    ensures
        c@ == adb_invocation(adb@, opt_view(serial), push_args(server_path@)),
{
    let mut c = adb_command(adb, serial);
    c.arg("push");
    c.arg(server_path);
    c.arg("/data/local/tmp/scrcpy-server.jar");
    assert(c@.args =~= adb_invocation(adb@, opt_view(serial), push_args(server_path@)).args);
    c
}

/// `adb reverse localabstract:SOCKET tcp:PORT`.
pub fn reverse_command(adb: &str, serial: Option<&str>, socket_name: &str, port: u16) -> (c:
    CommandLine)
    ensures
        c@ == adb_invocation(adb@, opt_view(serial), reverse_args(socket_name@, port)),
{
    let mut c = adb_command(adb, serial);
    c.arg("reverse");
    c.arg_string(concat("localabstract:", socket_name));
    let port_text = decimal_string(port as i64);
    c.arg_string(concat("tcp:", port_text.as_str()));
    assert(c@.args =~= adb_invocation(adb@, opt_view(serial), reverse_args(socket_name@, port)).args);
    c
}

/// `adb reverse --remove localabstract:SOCKET`.
pub fn reverse_remove_command(adb: &str, serial: Option<&str>, socket_name: &str) -> (c:
    CommandLine)
    ensures
        c@ == adb_invocation(adb@, opt_view(serial), reverse_remove_args(socket_name@)),
{
    let mut c = adb_command(adb, serial);
    c.arg("reverse");
    c.arg("--remove");
    c.arg_string(concat("localabstract:", socket_name));
    assert(c@.args =~= adb_invocation(adb@, opt_view(serial), reverse_remove_args(socket_name@)).args);
    c
}

/// `adb shell CLASSPATH=... app_process / com.genymobile.scrcpy.Server VERSION ...`.
pub fn server_start_command(adb: &str, serial: Option<&str>, version: &str, scid: u32) -> (c:
    CommandLine)
    ensures
        c@ == adb_invocation(adb@, opt_view(serial), server_args(version@, scid)),
{
    let mut c = adb_command(adb, serial);
    c.arg("shell");
    c.arg_string(concat("CLASSPATH=", "/data/local/tmp/scrcpy-server.jar"));
    c.arg("app_process");
    c.arg("/");
    c.arg("com.genymobile.scrcpy.Server");
    c.arg(version);
    let hex = hex8_string(scid);
    c.arg_string(concat("scid=", hex.as_str()));
    c.arg("log_level=info");
    c.arg("video=false");
    c.arg("audio=false");
    c.arg("control=true");
    c.arg("send_dummy_byte=false");
    c.arg("send_device_meta=false");
    c.arg("send_frame_meta=false");
    c.arg("clipboard_autosync=false");
    c.arg("cleanup=false");
    c.arg("power_on=false");
    assert(c@.args =~= adb_invocation(adb@, opt_view(serial), server_args(version@, scid)).args);
    c
}

/// Why the scrcpy version could not be read.
#[derive(Clone, Copy, Debug, PartialEq, Eq, Structural)]
pub enum VersionError {
    /// `scrcpy --version` exited unsuccessfully.
    CommandFailed,
    /// It printed nothing.
    NoOutput,
    /// Its first line has no second word.
    Unparsable,
}

/// The version in the output of `scrcpy --version`: the second word of its
/// first line.
pub open spec fn spec_scrcpy_version(succeeded: bool, stdout: Seq<char>) -> Result<Seq<char>, VersionError> {
    if !succeeded {
        Err(VersionError::CommandFailed)
    } else if lines(stdout).len() == 0 {
        Err(VersionError::NoOutput)
    } else if words(lines(stdout)[0]).len() < 2 {
        Err(VersionError::Unparsable)
    } else {
        Ok(words(lines(stdout)[0])[1])
    }
}

/// Law: when `scrcpy --version` succeeds and its output is a single line
/// `NAME VERSION` followed by nothing or by whitespace, the version read is
/// the whole second word.
pub proof fn lemma_version_of_single_line(name: Seq<char>, version: Seq<char>, rest: Seq<char>)
    requires
        name.len() > 0,
        no_whitespace(name),
        version.len() > 0,
        no_whitespace(version),
        rest.len() == 0 || is_whitespace(rest[0]),
        forall|i: int| 0 <= i < rest.len() ==> rest[i] != '\n',
    ensures
        spec_scrcpy_version(true, name + seq![' '] + version + rest) == Ok::<Seq<char>, VersionError>(
            version,
        ),
{
    let line = name + seq![' '] + version + rest;
    lemma_no_newline(name, version, rest);
    lemma_first_index_append(line, Seq::<char>::empty(), '\n');
    assert(line + Seq::<char>::empty() =~= line);
    assert(lines(line) =~= seq![line]);
    lemma_words_second(name, version, rest);
}

proof fn lemma_no_newline(name: Seq<char>, version: Seq<char>, rest: Seq<char>)
    requires
        no_whitespace(name),
        no_whitespace(version),
        forall|i: int| 0 <= i < rest.len() ==> rest[i] != '\n',
    ensures
        forall|i: int|
            0 <= i < (name + seq![' '] + version + rest).len() ==> (name + seq![' '] + version
                + rest)[i] != '\n',
{
    let line = name + seq![' '] + version + rest;
    assert forall|i: int| 0 <= i < line.len() implies line[i] != '\n' by {
        if i < name.len() {
            assert(line[i] == name[i]);
            assert(!is_whitespace(name[i]));
        } else if i == name.len() {
            assert(line[i] == ' ');
        } else if i < name.len() + 1 + version.len() {
            assert(line[i] == version[i - name.len() - 1]);
            assert(!is_whitespace(version[i - name.len() - 1]));
        } else {
            assert(line[i] == rest[i - name.len() - 1 - version.len()]);
        }
    }
}

/// Law: when `scrcpy --version` succeeds and its first line is `NAME
/// VERSION` followed by nothing or by whitespace, the version read is the
/// whole second word, whatever the lines after it hold.
pub proof fn lemma_version_of_first_line(
    name: Seq<char>,
    version: Seq<char>,
    rest: Seq<char>,
    after: Seq<char>,
)
    requires
        name.len() > 0,
        no_whitespace(name),
        version.len() > 0,
        no_whitespace(version),
        rest.len() == 0 || is_whitespace(rest[0]),
        forall|i: int| 0 <= i < rest.len() ==> rest[i] != '\n',
    ensures
        spec_scrcpy_version(true, name + seq![' '] + version + rest + seq!['\n'] + after) == Ok::<
            Seq<char>,
            VersionError,
        >(version),
{
    let line = name + seq![' '] + version + rest;
    let s = line + seq!['\n'] + after;
    lemma_no_newline(name, version, rest);
    lemma_first_index_append(line, seq!['\n'] + after, '\n');
    assert(s =~= line + (seq!['\n'] + after));
    assert((seq!['\n'] + after)[0] == '\n');
    assert(first_index(s, '\n') == line.len());
    assert(s.take(line.len() as int) =~= line);
    assert(lines(s)[0] == strip_cr(line));
    if line.len() > 0 && line.last() == '\r' {
        assert(rest.len() > 0) by {
            if rest.len() == 0 {
                assert(line.last() == version.last());
                assert(!is_whitespace(version[version.len() - 1]));
            }
        }
        let r2 = rest.drop_last();
        assert(line.drop_last() =~= name + seq![' '] + version + r2);
        assert(r2.len() > 0 ==> r2[0] == rest[0]);
        lemma_words_second(name, version, r2);
    } else {
        lemma_words_second(name, version, rest);
    }
}

/// The command that prints the scrcpy version: `scrcpy --version`.
pub fn scrcpy_version_command(scrcpy_binary: &str) -> (c: CommandLine)
    ensures
        c@.program == scrcpy_binary@,
        c@.args == seq!["--version"@],
{
    let mut c = CommandLine::new(scrcpy_binary);
    c.arg("--version");
    assert(c@.args =~= seq!["--version"@]);
    c
}

/// The scrcpy version from the outcome of `scrcpy --version`: whether it
/// exited successfully, and its output.
pub fn scrcpy_version(succeeded: bool, stdout: &str) -> (r: Result<String, VersionError>)
    ensures
        match r {
            Ok(v) => spec_scrcpy_version(succeeded, stdout@) == Ok::<Seq<char>, VersionError>(v@),
            Err(e) => spec_scrcpy_version(succeeded, stdout@) == Err::<Seq<char>, VersionError>(e),
        },
{
    if !succeeded {
        return Err(VersionError::CommandFailed);
    }
    let v = chars_of(stdout);
    let n = v.len();
    if n == 0 {
        assert(lines(stdout@).len() == 0);
        return Err(VersionError::NoOutput);
    }
    let nl = find_char(&v, 0, n, '\n');
    assert(v@.subrange(0, n as int) =~= v@);
    let end = if nl < n && nl > 0 && v[nl - 1] == '\r' {
        nl - 1
    } else {
        nl
    };
    let ghost first = lines(stdout@)[0];
    proof {
        if nl < n {
            assert(lines(stdout@) =~= seq![strip_cr(v@.take(nl as int))] + lines(
                v@.skip(nl + 1),
            ));
            assert(first =~= v@.subrange(0, end as int));
        } else {
            assert(first =~= v@.subrange(0, end as int));
        }
    }
    let a = skip_ws(&v, 0, end);
    if a == end {
        assert(words(v@.subrange(a as int, end as int)) =~= Seq::<Seq<char>>::empty());
        return Err(VersionError::Unparsable);
    }
    let b = word_end(&v, a, end);
    let c = skip_ws(&v, b, end);
    if c == end {
        assert(words(v@.subrange(c as int, end as int)) =~= Seq::<Seq<char>>::empty());
        return Err(VersionError::Unparsable);
    }
    let d = word_end(&v, c, end);
    let mut version = String::new();
    let mut i = c;
    while i < d
        invariant
            c <= i <= d <= v.len(),
            version@ == v@.subrange(c as int, i as int),
        decreases d - i,
    {
        crate::text::push_char(&mut version, v[i]);
        assert(version@ =~= v@.subrange(c as int, i + 1));
        i = i + 1;
    }
    Ok(version)
}

} // verus!
