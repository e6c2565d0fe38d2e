//! scrcpy settings and shell-style rendering of command lines.
use vstd::prelude::*;
use vstd::string::*;

use crate::command::{texts, CommandLine};
use crate::text::{chars_of, decimal, decimal_string, push_char};

verus! {

/// Settings of the scrcpy process.
#[derive(Clone, Debug)]
pub struct ScrcpyConfig {
    pub binary: String,
    pub serial: Option<String>,
    pub audio_enabled: bool,
    pub audio_buffer_ms: u16,
    pub extra_args: Vec<String>,
}

impl Default for ScrcpyConfig {
    fn default() -> (c: Self)
        ensures
            c.binary@ == "scrcpy"@,
            c.serial is None,
            c.audio_enabled,
            c.audio_buffer_ms == 200,
            c.extra_args@.len() == 0,
    {
        ScrcpyConfig {
            binary: String::from_str("scrcpy"),
            serial: None,
            audio_enabled: true,
            audio_buffer_ms: 200,
            extra_args: Vec::new(),
        }
    }
}

/// The scrcpy backend with its settings.
#[derive(Clone, Debug)]
pub struct ScrcpyBackend {
    config: ScrcpyConfig,
}

impl ScrcpyBackend {
    /// A backend with the settings `config`.
    pub fn new(config: ScrcpyConfig) -> (b: Self)
        ensures
            b.spec_config() == config,
    {
        ScrcpyBackend { config }
    }

    /// The settings of the backend.
    pub closed spec fn spec_config(&self) -> ScrcpyConfig {
        self.config
    }

    /// The settings of the backend.
    pub fn config(&self) -> (c: &ScrcpyConfig)
        ensures
            *c == self.spec_config(),
    {
        &self.config
    }

    /// The command that checks that scrcpy runs: `scrcpy --version`.
    pub fn check_command(&self) -> (c: CommandLine)
        ensures
            c@.program == self.spec_config().binary@,
            c@.args == seq!["--version"@],
    {
        let mut c = CommandLine::new(self.config.binary.as_str());
        c.arg("--version");
        assert(c@.args =~= seq!["--version"@]);
        c
    }
}

/// The arguments of the audio-only scrcpy process: the device selection when
/// one is configured, no video, no window and no control, the audio buffer,
/// then the extra arguments.
pub open spec fn audio_args(config: ScrcpyConfig) -> Seq<Seq<char>> {
    (match config.serial {
        Some(s) => seq!["--serial"@, s@],
        None => Seq::empty(),
    }) + seq![
        "--no-video"@,
        "--no-window"@,
        "--no-control"@,
        "--audio-buffer="@ + decimal(config.audio_buffer_ms as int),
    ] + texts(config.extra_args@)
}

/// Law: the audio arguments are the device selection (two arguments when a
/// serial is set), four fixed arguments, then every extra argument, in order
/// and unchanged.
pub proof fn lemma_audio_args_end_with_extras(config: ScrcpyConfig)
    ensures
        audio_args(config).len() == (if config.serial is Some {
            2int
        } else {
            0int
        }) + 4 + config.extra_args@.len(),
        audio_args(config).subrange(
            audio_args(config).len() - config.extra_args@.len(),
            audio_args(config).len() as int,
        ) == texts(config.extra_args@),
        forall|i: int|
            0 <= i < config.extra_args@.len() ==> #[trigger] audio_args(config)[audio_args(
                config,
            ).len() - config.extra_args@.len() + i] == config.extra_args@[i]@,
{
    let pre = (match config.serial {
        Some(s) => seq!["--serial"@, s@],
        None => Seq::<Seq<char>>::empty(),
    }) + seq![
        "--no-video"@,
        "--no-window"@,
        "--no-control"@,
        "--audio-buffer="@ + decimal(config.audio_buffer_ms as int),
    ];
    let t = texts(config.extra_args@);
    assert(audio_args(config) == pre + t);
    assert((pre + t).subrange(pre.len() as int, (pre + t).len() as int) =~= t);
}

/// Law: one more extra argument appends exactly that argument to the
/// audio command and leaves the rest as it was.
pub proof fn lemma_audio_args_push_extra(config: ScrcpyConfig, extra: Vec<String>, arg: String)
    requires
        extra@ == config.extra_args@.push(arg),
    ensures
        audio_args(ScrcpyConfig { extra_args: extra, ..config }) == audio_args(config).push(arg@),
{
    assert(texts(extra@) =~= texts(config.extra_args@).push(arg@));
    let pre = (match config.serial {
        Some(s) => seq!["--serial"@, s@],
        None => Seq::<Seq<char>>::empty(),
    }) + seq![
        "--no-video"@,
        "--no-window"@,
        "--no-control"@,
        "--audio-buffer="@ + decimal(config.audio_buffer_ms as int),
    ];
    assert(pre + texts(config.extra_args@).push(arg@) =~= (pre + texts(config.extra_args@)).push(
        arg@,
    ));
}

impl ScrcpyBackend {
    /// The audio-only scrcpy process that runs beside the control session.
    pub fn command(&self) -> (c: CommandLine)
        ensures
            c@.program == self.spec_config().binary@,
            c@.args == audio_args(self.spec_config()),
    {
        let config = &self.config;
        let mut c = CommandLine::new(config.binary.as_str());
        match &config.serial {
            Some(s) => {
                c.arg("--serial");
                c.arg(s.as_str());
            },
            None => {},
        }
        c.arg("--no-video");
        c.arg("--no-window");
        c.arg("--no-control");
        let mut buffer = String::from_str("--audio-buffer=");
        let ms = decimal_string(config.audio_buffer_ms as i64);
        buffer.append(ms.as_str());
        c.arg_string(buffer);
        let ghost before = c@.args;
        let mut i: usize = 0;
        while i < config.extra_args.len()
            invariant
                0 <= i <= config.extra_args@.len(),
                c@.program == config.binary@,
                c@.args == before + texts(config.extra_args@.take(i as int)),
            decreases config.extra_args@.len() - i,
        {
            c.arg(config.extra_args[i].as_str());
            assert(texts(config.extra_args@.take(i + 1)) =~= texts(config.extra_args@.take(i as int)).push(config.extra_args@[i as int]@));
            i = i + 1;
        }
        assert(config.extra_args@.take(config.extra_args@.len() as int) =~= config.extra_args@);
        assert(c@.args =~= audio_args(self.spec_config()));
        c
    }

    /// The audio-only scrcpy command line as a shell would read it.
    pub fn command_preview(&self) -> (s: String)
        ensures
            s@ == spec_shell_words(seq![self.spec_config().binary@] + audio_args(self.spec_config())),
    {
        let c = self.command();
        let mut words: Vec<&str> = Vec::new();
        words.push(c.program.as_str());
        let mut i: usize = 0;
        while i < c.args.len()
            invariant
                0 <= i <= c.args@.len(),
                str_texts(words@) == seq![c.program@] + texts(c.args@.take(i as int)),
            decreases c.args@.len() - i,
        {
            let ghost prev = words@;
            let w = c.args[i].as_str();
            words.push(w);
            assert(str_texts(words@) =~= str_texts(prev).push(w@));
            assert(texts(c.args@.take(i + 1)) =~= texts(c.args@.take(i as int)).push(c.args@[i as int]@));
            assert(str_texts(words@) =~= seq![c.program@] + texts(c.args@.take(i + 1)));
            i = i + 1;
        }
        assert(c.args@.take(c.args@.len() as int) =~= c.args@);
        shell_words(words.as_slice())
    }
}

/// Characters a shell takes literally outside quotes.
pub open spec fn is_shell_safe(c: char) -> bool {
    ||| 'a' <= c <= 'z'
    ||| 'A' <= c <= 'Z'
    ||| '0' <= c <= '9'
    ||| c == '_'
    ||| c == '+'
    ||| c == '-'
    ||| c == '='
    ||| c == '.'
    ||| c == '/'
    ||| c == ':'
}

/// Every character of `s` is shell-safe.
pub open spec fn all_shell_safe(s: Seq<char>) -> bool {
    forall|i: int| 0 <= i < s.len() ==> is_shell_safe(#[trigger] s[i])
}

/// `s` with every `'` written as `'\''`.
pub open spec fn escape_quotes(s: Seq<char>) -> Seq<char>
    decreases s.len(),
{
    if s.len() == 0 {
        Seq::empty()
    } else {
        escape_quotes(s.drop_last()) + if s.last() == '\'' {
            seq!['\'', '\\', '\'', '\'']
        } else {
            seq![s.last()]
        }
    }
}

/// `s` as one shell word: unchanged when every character is safe, else in
/// single quotes.
pub open spec fn spec_shell_quote(s: Seq<char>) -> Seq<char> {
    if all_shell_safe(s) {
        s
    } else {
        seq!['\''] + escape_quotes(s) + seq!['\'']
    }
}

/// The shell words of `words`, separated by single spaces.
pub open spec fn spec_shell_words(words: Seq<Seq<char>>) -> Seq<char>
    decreases words.len(),
{
    if words.len() == 0 {
        Seq::empty()
    } else if words.len() == 1 {
        spec_shell_quote(words[0])
    } else {
        spec_shell_words(words.drop_last()) + seq![' '] + spec_shell_quote(words.last())
    }
}

/// How a POSIX shell reads the characters of one word: outside quotes a
/// backslash takes the next character literally and `'` opens a quoted run;
/// inside, every character is literal up to the closing `'`.
pub open spec fn shell_unquote_from(s: Seq<char>, quoted: bool) -> Seq<char>
    decreases s.len(),
{
    if s.len() == 0 {
        Seq::empty()
    } else if quoted {
        if s[0] == '\'' {
            shell_unquote_from(s.drop_first(), false)
        } else {
            seq![s[0]] + shell_unquote_from(s.drop_first(), true)
        }
    } else if s[0] == '\'' {
        shell_unquote_from(s.drop_first(), true)
    } else if s[0] == '\\' && s.len() >= 2 {
        seq![s[1]] + shell_unquote_from(s.skip(2), false)
    } else {
        seq![s[0]] + shell_unquote_from(s.drop_first(), false)
    }
}

/// The word a shell reads from `s`.
pub open spec fn shell_unquote(s: Seq<char>) -> Seq<char> {
    shell_unquote_from(s, false)
}

proof fn lemma_unquote_safe(s: Seq<char>)
    requires
        all_shell_safe(s),
    ensures
        shell_unquote_from(s, false) == s,
    decreases s.len(),
{
    if s.len() > 0 {
        assert(is_shell_safe(s[0]));
        assert(all_shell_safe(s.drop_first())) by {
            assert forall|i: int| 0 <= i < s.drop_first().len() implies is_shell_safe(
                #[trigger] s.drop_first()[i],
            ) by {
                assert(s.drop_first()[i] == s[i + 1]);
            }
        }
        lemma_unquote_safe(s.drop_first());
        assert(s =~= seq![s[0]] + s.drop_first());
    }
}

proof fn lemma_unquote_escaped(w: Seq<char>, tail: Seq<char>)
    ensures
        shell_unquote_from(escape_quotes(w) + tail, true) == w + shell_unquote_from(tail, true),
    decreases w.len(),
{
    if w.len() == 0 {
        assert(escape_quotes(w) + tail =~= tail);
        assert(w + shell_unquote_from(tail, true) =~= shell_unquote_from(tail, true));
    } else {
        let c = w.last();
        let init = w.drop_last();
        let piece = if c == '\'' {
            seq!['\'', '\\', '\'', '\'']
        } else {
            seq![c]
        };
        assert(escape_quotes(w) == escape_quotes(init) + piece);
        assert(escape_quotes(w) + tail =~= escape_quotes(init) + (piece + tail));
        lemma_unquote_escaped(init, piece + tail);
        if c == '\'' {
            let t0 = piece + tail;
            assert(t0.drop_first() =~= seq!['\\', '\'', '\''] + tail);
            let t1 = seq!['\\', '\'', '\''] + tail;
            assert(t1.skip(2) =~= seq!['\''] + tail);
            let t2 = seq!['\''] + tail;
            assert(t2.drop_first() =~= tail);
            assert(shell_unquote_from(t2, false) == shell_unquote_from(tail, true));
            assert(shell_unquote_from(t1, false) == seq!['\''] + shell_unquote_from(t2, false));
            assert(shell_unquote_from(t0, true) == shell_unquote_from(t1, false));
        } else {
            assert((piece + tail).drop_first() =~= tail);
        }
        assert(w =~= init + seq![c]);
        assert(init + (seq![c] + shell_unquote_from(tail, true)) =~= w + shell_unquote_from(
            tail,
            true,
        ));
    }
}

/// Law: a shell reads the quoted form of a word back as that word.
pub proof fn lemma_shell_quote_roundtrip(w: Seq<char>)
    ensures
        shell_unquote(spec_shell_quote(w)) == w,
{
    if all_shell_safe(w) {
        lemma_unquote_safe(w);
    } else {
        let q = seq!['\''] + escape_quotes(w) + seq!['\''];
        assert(q.drop_first() =~= escape_quotes(w) + seq!['\'']);
        lemma_unquote_escaped(w, seq!['\'']);
        assert(seq!['\''].drop_first() =~= Seq::<char>::empty());
        assert(seq!['\''][0] == '\'');
        assert(shell_unquote_from(Seq::<char>::empty(), false) == Seq::<char>::empty());
        assert(shell_unquote_from(seq!['\''], true) == Seq::<char>::empty());
        assert(w + Seq::<char>::empty() =~= w);
    }
}

/// How a POSIX shell splits `s` into words, continuing a word `current`
/// (`started` when it has begun, possibly empty from quotes) in or out of a
/// single-quoted run: unquoted spaces end words, `'` opens or closes a
/// quoted run, and outside quotes a backslash takes the next character.
pub open spec fn shell_split_from(s: Seq<char>, current: Seq<char>, started: bool, quoted: bool) -> Seq<Seq<char>>
    decreases s.len(),
{
    if s.len() == 0 {
        if started {
            seq![current]
        } else {
            Seq::empty()
        }
    } else if quoted {
        if s[0] == '\'' {
            shell_split_from(s.drop_first(), current, started, false)
        } else {
            shell_split_from(s.drop_first(), current.push(s[0]), started, true)
        }
    } else if s[0] == ' ' {
        (if started {
            seq![current]
        } else {
            Seq::empty()
        }) + shell_split_from(s.drop_first(), Seq::empty(), false, false)
    } else if s[0] == '\'' {
        shell_split_from(s.drop_first(), current, true, true)
    } else if s[0] == '\\' && s.len() >= 2 {
        shell_split_from(s.skip(2), current.push(s[1]), true, false)
    } else {
        shell_split_from(s.drop_first(), current.push(s[0]), true, false)
    }
}

/// The words a shell reads from the command line `s`.
pub open spec fn shell_split(s: Seq<char>) -> Seq<Seq<char>> {
    shell_split_from(s, Seq::empty(), false, false)
}

proof fn lemma_split_safe(w: Seq<char>, tail: Seq<char>, current: Seq<char>, started: bool)
    requires
        all_shell_safe(w),
    ensures
        shell_split_from(w + tail, current, started, false) == shell_split_from(
            tail,
            current + w,
            started || w.len() > 0,
            false,
        ),
    decreases w.len(),
{
    if w.len() == 0 {
        assert(w + tail =~= tail);
        assert(current + w =~= current);
    } else {
        assert(is_shell_safe(w[0]));
        assert(all_shell_safe(w.drop_first())) by {
            assert forall|i: int| 0 <= i < w.drop_first().len() implies is_shell_safe(
                #[trigger] w.drop_first()[i],
            ) by {
                assert(w.drop_first()[i] == w[i + 1]);
            }
        }
        assert((w + tail)[0] == w[0]);
        assert((w + tail).drop_first() =~= w.drop_first() + tail);
        lemma_split_safe(w.drop_first(), tail, current.push(w[0]), true);
        assert(current.push(w[0]) + w.drop_first() =~= current + w);
    }
}

proof fn lemma_split_escaped(w: Seq<char>, tail: Seq<char>, current: Seq<char>)
    ensures
        shell_split_from(escape_quotes(w) + tail, current, true, true) == shell_split_from(
            tail,
            current + w,
            true,
            true,
        ),
    decreases w.len(),
{
    if w.len() == 0 {
        assert(escape_quotes(w) + tail =~= tail);
        assert(current + w =~= current);
    } else {
        let c = w.last();
        let init = w.drop_last();
        let piece = if c == '\'' {
            seq!['\'', '\\', '\'', '\'']
        } else {
            seq![c]
        };
        assert(escape_quotes(w) == escape_quotes(init) + piece);
        assert(escape_quotes(w) + tail =~= escape_quotes(init) + (piece + tail));
        lemma_split_escaped(init, piece + tail, current);
        let cur = current + init;
        if c == '\'' {
            let t0 = piece + tail;
            assert(t0.drop_first() =~= seq!['\\', '\'', '\''] + tail);
            let t1 = seq!['\\', '\'', '\''] + tail;
            assert(t1.skip(2) =~= seq!['\''] + tail);
            let t2 = seq!['\''] + tail;
            assert(t2.drop_first() =~= tail);
            assert(shell_split_from(t2, cur.push('\''), true, false) == shell_split_from(
                tail,
                cur.push('\''),
                true,
                true,
            ));
            assert(shell_split_from(t1, cur, true, false) == shell_split_from(
                t2,
                cur.push('\''),
                true,
                false,
            ));
            assert(shell_split_from(t0, cur, true, true) == shell_split_from(t1, cur, true, false));
        } else {
            assert((piece + tail).drop_first() =~= tail);
            assert((piece + tail)[0] == c);
        }
        assert(cur.push(c) =~= current + w);
    }
}

proof fn lemma_split_quoted(w: Seq<char>, tail: Seq<char>, current: Seq<char>, started: bool)
    requires
        w.len() > 0,
    ensures
        shell_split_from(spec_shell_quote(w) + tail, current, started, false) == shell_split_from(
            tail,
            current + w,
            true,
            false,
        ),
{
    if all_shell_safe(w) {
        lemma_split_safe(w, tail, current, started);
    } else {
        let q = seq!['\''] + escape_quotes(w) + seq!['\''];
        let s = q + tail;
        assert(s[0] == '\'');
        assert(s.drop_first() =~= escape_quotes(w) + (seq!['\''] + tail));
        lemma_split_escaped(w, seq!['\''] + tail, current);
        assert((seq!['\''] + tail)[0] == '\'');
        assert((seq!['\''] + tail).drop_first() =~= tail);
    }
}

proof fn lemma_split_words(ws: Seq<Seq<char>>, tail: Seq<char>)
    requires
        ws.len() > 0,
        forall|i: int| 0 <= i < ws.len() ==> (#[trigger] ws[i]).len() > 0,
    ensures
        shell_split_from(spec_shell_words(ws) + tail, Seq::empty(), false, false) == ws.drop_last()
            + shell_split_from(tail, ws.last(), true, false),
    decreases ws.len(),
{
    if ws.len() == 1 {
        assert(spec_shell_words(ws) == spec_shell_quote(ws[0]));
        lemma_split_quoted(ws[0], tail, Seq::empty(), false);
        assert(Seq::<char>::empty() + ws[0] =~= ws[0]);
        assert(ws.drop_last() =~= Seq::<Seq<char>>::empty());
        assert(ws.drop_last() + shell_split_from(tail, ws.last(), true, false) =~= shell_split_from(
            tail,
            ws.last(),
            true,
            false,
        ));
    } else {
        let init = ws.drop_last();
        let last = ws.last();
        assert(init[init.len() - 1] == ws[ws.len() - 2]);
        assert forall|i: int| 0 <= i < init.len() implies (#[trigger] init[i]).len() > 0 by {
            assert(init[i] == ws[i]);
        }
        let rest = seq![' '] + spec_shell_quote(last) + tail;
        assert(spec_shell_words(ws) + tail =~= spec_shell_words(init) + rest);
        lemma_split_words(init, rest);
        assert(rest[0] == ' ');
        assert(rest.drop_first() =~= spec_shell_quote(last) + tail);
        lemma_split_quoted(last, tail, Seq::empty(), false);
        assert(Seq::<char>::empty() + last =~= last);
        assert(shell_split_from(rest, init.last(), true, false) == seq![init.last()]
            + shell_split_from(tail, last, true, false));
        assert(init.drop_last() + (seq![init.last()] + shell_split_from(tail, last, true, false))
            =~= ws.drop_last() + shell_split_from(tail, last, true, false));
    }
}

/// Law: a shell splits the command line of non-empty words back into those
/// words. (An empty word is written as nothing and gets lost.)
pub proof fn lemma_shell_words_roundtrip(ws: Seq<Seq<char>>)
    requires
        forall|i: int| 0 <= i < ws.len() ==> (#[trigger] ws[i]).len() > 0,
    ensures
        shell_split(spec_shell_words(ws)) == ws,
{
    if ws.len() > 0 {
        lemma_split_words(ws, Seq::empty());
        assert(spec_shell_words(ws) + Seq::<char>::empty() =~= spec_shell_words(ws));
        assert(ws.drop_last() + seq![ws.last()] =~= ws);
    } else {
        assert(spec_shell_words(ws) == Seq::<char>::empty());
    }
}

/// The texts of `words`.
pub open spec fn str_texts(words: Seq<&str>) -> Seq<Seq<char>> {
    words.map_values(|w: &str| w@)
}

/// Appends `value` to `out` as one shell word.
fn push_shell_quote(out: &mut String, value: &str)
    ensures
        final(out)@ == old(out)@ + spec_shell_quote(value@),
{
    let v = chars_of(value);
    let n = v.len();
    let mut safe = true;
    let mut i: usize = 0;
    while i < n
        invariant
            n == v@.len(),
            v@ == value@,
            0 <= i <= n,
            safe == all_shell_safe(v@.take(i as int)),
        decreases n - i,
    {
        let c = v[i];
        let ok = ('a' <= c && c <= 'z') || ('A' <= c && c <= 'Z') || ('0' <= c && c <= '9') || c
            == '_' || c == '+' || c == '-' || c == '=' || c == '.' || c == '/' || c == ':';
        proof {
            let t = v@.take(i as int);
            let t1 = v@.take(i + 1);
            assert(t1 =~= t.push(c));
            if !ok {
                assert(!is_shell_safe(t1[i as int]));
            }
            if safe && ok {
                assert forall|j: int| 0 <= j < t1.len() implies is_shell_safe(#[trigger] t1[j]) by {
                    if j < i {
                        assert(t1[j] == t[j]);
                    }
                }
            }
            if !safe {
                let j = choose|j: int| 0 <= j < t.len() && !is_shell_safe(#[trigger] t[j]);
                assert(t1[j] == t[j]);
            }
        }
        safe = safe && ok;
        i = i + 1;
    }
    assert(v@.take(n as int) =~= v@);
    if safe {
        let mut j: usize = 0;
        let ghost start = out@;
        while j < n
            invariant
                n == v@.len(),
                0 <= j <= n,
                out@ == start + v@.take(j as int),
            decreases n - j,
        {
            push_char(out, v[j]);
            assert(out@ =~= start + v@.take(j + 1));
            j = j + 1;
        }
        return;
    }
    push_char(out, '\'');
    let ghost start = out@;
    let mut j: usize = 0;
    while j < n
        invariant
            n == v@.len(),
            0 <= j <= n,
            out@ == start + escape_quotes(v@.take(j as int)),
        decreases n - j,
    {
        let c = v[j];
        assert(v@.take(j + 1).drop_last() =~= v@.take(j as int));
        if c == '\'' {
            push_char(out, '\'');
            push_char(out, '\\');
            push_char(out, '\'');
            push_char(out, '\'');
        } else {
            push_char(out, c);
        }
        assert(out@ =~= start + escape_quotes(v@.take(j + 1)));
        j = j + 1;
    }
    push_char(out, '\'');
    assert(final(out)@ =~= old(out)@ + spec_shell_quote(value@));
}

/// `value` as one shell word.
pub fn shell_quote(value: &str) -> (s: String)
    ensures
        s@ == spec_shell_quote(value@),
{
    let mut s = String::new();
    push_shell_quote(&mut s, value);
    assert(s@ =~= spec_shell_quote(value@));
    s
}

/// `words` as a shell command line: each word quoted where needed, separated
/// by single spaces.
pub fn shell_words(words: &[&str]) -> (s: String)
    ensures
        s@ == spec_shell_words(str_texts(words@)),
{
    let mut s = String::new();
    let n = words.len();
    let mut i: usize = 0;
    while i < n
        invariant
            n == words@.len(),
            0 <= i <= n,
            s@ == spec_shell_words(str_texts(words@.take(i as int))),
        decreases n - i,
    {
        let ghost prev = str_texts(words@.take(i as int));
        let ghost next = str_texts(words@.take(i + 1));
        assert(next.drop_last() =~= prev);
        assert(next.last() == words@[i as int]@);
        if i > 0 {
            push_char(&mut s, ' ');
        }
        push_shell_quote(&mut s, words[i]);
        proof {
            if i == 0 {
                assert(s@ =~= spec_shell_words(next));
            } else {
                assert(s@ =~= spec_shell_words(next));
            }
        }
        i = i + 1;
    }
    assert(words@.take(n as int) =~= words@);
    s
}

} // verus!
