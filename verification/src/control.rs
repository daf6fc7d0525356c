//! The control language (`play <file>`, `stop`, `fade <n>`, `status`, `quit`)
//! read from the prompt and from the control TCP port, and the rule that
//! confines remote `play` requests to the music directory.

use vstd::prelude::*;
use vstd::string::*;

verus! {

/// A control command.
#[derive(PartialEq, Eq, Debug)]
pub enum CmdKind {
    /// Play the song file at this path.
    Play(String),
    Stop,
    /// Fade out at this speed (1 = slowest).
    Fade(u8),
    Status,
    Quit,
}

/// The mathematical form of a [`CmdKind`].
pub enum CmdModel {
    Play(Seq<char>),
    Stop,
    Fade(u8),
    Status,
    Quit,
}

impl CmdKind {
    pub open spec fn model(self) -> CmdModel {
        match self {
            CmdKind::Play(p) => CmdModel::Play(p@),
            CmdKind::Stop => CmdModel::Stop,
            CmdKind::Fade(n) => CmdModel::Fade(n),
            CmdKind::Status => CmdModel::Status,
            CmdKind::Quit => CmdModel::Quit,
        }
    }
}

/// The model of an optional command.
pub open spec fn opt_model(c: Option<CmdKind>) -> Option<CmdModel> {
    match c {
        Some(k) => Some(k.model()),
        None => None,
    }
}

/// Unicode White_Space, the characters `char::is_whitespace` accepts and
/// `str::trim` removes.
pub open spec fn is_ws(c: char) -> bool {
    let v = c as u32;
    ||| 0x09 <= v <= 0x0D
    ||| v == 0x20
    ||| v == 0x85
    ||| v == 0xA0
    ||| v == 0x1680
    ||| 0x2000 <= v <= 0x200A
    ||| v == 0x2028
    ||| v == 0x2029
    ||| v == 0x202F
    ||| v == 0x205F
    ||| v == 0x3000
}

/// `s` without its leading white space.
pub open spec fn trim_start(s: Seq<char>) -> Seq<char>
    decreases s.len(),
{
    if s.len() > 0 && is_ws(s[0]) {
        trim_start(s.drop_first())
    } else {
        s
    }
}

/// `s` without its trailing white space.
pub open spec fn trim_end(s: Seq<char>) -> Seq<char>
    decreases s.len(),
{
    if s.len() > 0 && is_ws(s.last()) {
        trim_end(s.drop_last())
    } else {
        s
    }
}

/// `s` without leading and trailing white space.
pub open spec fn trim(s: Seq<char>) -> Seq<char> {
    trim_end(trim_start(s))
}

/// The length of the first word of `s`: the characters before its first
/// white space (all of `s` when there is none).
pub open spec fn word_len(s: Seq<char>) -> int
    decreases s.len(),
{
    if s.len() == 0 || is_ws(s[0]) {
        0
    } else {
        1 + word_len(s.drop_first())
    }
}

/// ASCII upper case to lower case; every other character unchanged.
pub open spec fn ascii_lower(c: char) -> char {
    if 'A' <= c <= 'Z' {
        ((c as u32) + 32) as char
    } else {
        c
    }
}

/// `s` with ASCII letters in lower case.
pub open spec fn lower(s: Seq<char>) -> Seq<char> {
    s.map_values(|c: char| ascii_lower(c))
}

/// Every character is an ASCII digit.
pub open spec fn all_digits(s: Seq<char>) -> bool {
    forall|i: int| 0 <= i < s.len() ==> '0' <= #[trigger] s[i] <= '9'
}

/// The decimal value of a string of digits.
pub open spec fn digits_value(s: Seq<char>) -> int
    decreases s.len(),
{
    if s.len() == 0 {
        0
    } else {
        digits_value(s.drop_last()) * 10 + (s.last() as int - '0' as int)
    }
}

/// What `str::parse::<u8>` accepts: an optional `+`, then one or more ASCII
/// digits whose value is at most 255.
pub open spec fn parse_u8(s: Seq<char>) -> Option<u8> {
    let d = if s.len() > 0 && s[0] == '+' {
        s.drop_first()
    } else {
        s
    };
    if d.len() > 0 && all_digits(d) && digits_value(d) <= 255 {
        Some(digits_value(d) as u8)
    } else {
        None
    }
}

/// The command word of a trimmed line and the rest after the white space
/// character that ends it (empty when the line is one word).
pub open spec fn command_word(t: Seq<char>) -> Seq<char> {
    t.take(word_len(t))
}

pub open spec fn command_rest(t: Seq<char>) -> Seq<char> {
    if word_len(t) < t.len() {
        t.skip(word_len(t) + 1)
    } else {
        Seq::empty()
    }
}

/// A line of the control language: leading and trailing white space are
/// ignored; the first word, in any ASCII case, names the command and the rest
/// (trimmed) is its argument: `play`/`p <file>`, `stop`/`s`, `fade`/`f <n>`
/// with `n` a `u8`, `status`/`st`, `quit`/`exit`/`q`. Anything else,
/// an empty line and a `fade` without a valid speed are no command.
pub open spec fn parse_command_spec(line: Seq<char>) -> Option<CmdModel> {
    let t = trim(line);
    let cmd = lower(command_word(t));
    let arg = trim(command_rest(t));
    if t.len() == 0 {
        None
    } else if cmd == "play"@ || cmd == "p"@ {
        Some(CmdModel::Play(arg))
    } else if cmd == "stop"@ || cmd == "s"@ {
        Some(CmdModel::Stop)
    } else if cmd == "fade"@ || cmd == "f"@ {
        match parse_u8(arg) {
            Some(n) => Some(CmdModel::Fade(n)),
            None => None,
        }
    } else if cmd == "status"@ || cmd == "st"@ {
        Some(CmdModel::Status)
    } else if cmd == "quit"@ || cmd == "exit"@ || cmd == "q"@ {
        Some(CmdModel::Quit)
    } else {
        None
    }
}

proof fn lemma_trim_start_shape(s: Seq<char>)
    ensures
        trim_start(s).len() > 0 ==> !is_ws(trim_start(s)[0]),
    decreases s.len(),
{
    if s.len() > 0 && is_ws(s[0]) {
        lemma_trim_start_shape(s.drop_first());
    }
}

proof fn lemma_trim_end_shape(s: Seq<char>)
    ensures
        trim_end(s).len() <= s.len(),
        forall|i: int| 0 <= i < trim_end(s).len() ==> trim_end(s)[i] == s[i],
        trim_end(s).len() > 0 ==> !is_ws(trim_end(s).last()),
    decreases s.len(),
{
    if s.len() > 0 && is_ws(s.last()) {
        lemma_trim_end_shape(s.drop_last());
        assert forall|i: int| 0 <= i < trim_end(s).len() implies trim_end(s)[i] == s[i] by {
            assert(s.drop_last()[i] == s[i]);
        }
    }
}

/// Law: trimming is idempotent, so a line and the line without its
/// surrounding white space are the same command.
pub proof fn law_surrounding_space_is_ignored(line: Seq<char>)
    ensures
        trim(trim(line)) == trim(line),
        parse_command_spec(trim(line)) == parse_command_spec(line),
{
    let u = trim_start(line);
    let t = trim_end(u);
    lemma_trim_start_shape(line);
    lemma_trim_end_shape(u);
    if t.len() > 0 {
        assert(t[0] == u[0]);
    }
    assert(trim_start(t) == t);
    assert(trim_end(t) == t);
}

/// Law: lower-casing keeps the length, turns each of `A`-`Z` into the letter
/// 32 code points above it, and keeps every other character.
pub proof fn law_lower_is_ascii_only(s: Seq<char>)
    ensures
        lower(s).len() == s.len(),
        forall|i: int|
            0 <= i < s.len() && 'A' <= s[i] <= 'Z' ==> #[trigger] lower(s)[i] as u32 == s[i] as u32
                + 32,
        forall|i: int| 0 <= i < s.len() && !('A' <= s[i] <= 'Z') ==> #[trigger] lower(s)[i] == s[i],
{
}

proof fn lemma_trim_end_concat(p: Seq<char>, q: Seq<char>)
    ensures
        trim_end(p + q) == (if trim_end(q).len() > 0 {
            p + trim_end(q)
        } else {
            trim_end(p)
        }),
    decreases q.len(),
{
    if q.len() == 0 {
        assert(p + q =~= p);
    } else if is_ws(q.last()) {
        assert((p + q).drop_last() =~= p + q.drop_last());
        lemma_trim_end_concat(p, q.drop_last());
    } else {
        assert((p + q).last() == q.last());
    }
}

proof fn lemma_word_len_concat(w: Seq<char>, r: Seq<char>)
    requires
        forall|i: int| 0 <= i < w.len() ==> !is_ws(#[trigger] w[i]),
        r.len() == 0 || is_ws(r[0]),
    ensures
        word_len(w + r) == w.len(),
    decreases w.len(),
{
    if w.len() > 0 {
        assert((w + r).drop_first() =~= w.drop_first() + r);
        assert(w[0] == (w + r)[0]);
        assert forall|i: int| 0 <= i < w.drop_first().len() implies !is_ws(
            #[trigger] w.drop_first()[i],
        ) by {
            assert(w.drop_first()[i] == w[i + 1]);
        }
        lemma_word_len_concat(w.drop_first(), r);
    } else {
        assert(w + r =~= r);
    }
}

/// Every character is white space.
pub open spec fn all_ws(s: Seq<char>) -> bool {
    forall|i: int| 0 <= i < s.len() ==> is_ws(#[trigger] s[i])
}

proof fn lemma_trim_start_skips_ws(p: Seq<char>, x: Seq<char>)
    requires
        all_ws(p),
    ensures
        trim_start(p + x) == trim_start(x),
    decreases p.len(),
{
    if p.len() == 0 {
        assert(p + x =~= x);
    } else {
        assert((p + x)[0] == p[0]);
        assert((p + x).drop_first() =~= p.drop_first() + x);
        assert forall|i: int| 0 <= i < p.drop_first().len() implies is_ws(
            #[trigger] p.drop_first()[i],
        ) by {
            assert(p.drop_first()[i] == p[i + 1]);
        }
        lemma_trim_start_skips_ws(p.drop_first(), x);
    }
}

proof fn lemma_trim_end_of_ws(q: Seq<char>)
    requires
        all_ws(q),
    ensures
        trim_end(q).len() == 0,
    decreases q.len(),
{
    if q.len() > 0 {
        assert(is_ws(q[q.len() - 1]));
        assert forall|i: int| 0 <= i < q.drop_last().len() implies is_ws(
            #[trigger] q.drop_last()[i],
        ) by {
            assert(q.drop_last()[i] == q[i]);
        }
        lemma_trim_end_of_ws(q.drop_last());
    }
}

proof fn lemma_command_line_parts(
    pre: Seq<char>,
    w: Seq<char>,
    sep: Seq<char>,
    a: Seq<char>,
    post: Seq<char>,
)
    requires
        w.len() > 0,
        forall|i: int| 0 <= i < w.len() ==> !is_ws(#[trigger] w[i]),
        all_ws(pre),
        sep.len() > 0,
        all_ws(sep),
        all_ws(post),
        a.len() == 0 || (!is_ws(a[0]) && !is_ws(a.last())),
    ensures
        trim(pre + w + sep + a + post).len() > 0,
        command_word(trim(pre + w + sep + a + post)) == w,
        trim(command_rest(trim(pre + w + sep + a + post))) == a,
{
    let line = pre + w + sep + a + post;
    let core = w + sep + a;
    assert(line =~= pre + (core + post));
    lemma_trim_start_skips_ws(pre, core + post);
    assert((core + post)[0] == w[0]);
    assert(trim_start(core + post) == core + post);
    lemma_trim_end_of_ws(post);
    lemma_trim_end_concat(core, post);
    let t = trim(line);
    assert(t == trim_end(core));
    assert(is_ws(sep[0]));
    if a.len() > 0 {
        assert(core.last() == a.last());
        assert(t == core);
        assert(t =~= w + (sep + a));
        assert((sep + a)[0] == sep[0]);
        lemma_word_len_concat(w, sep + a);
        assert(command_word(t) =~= w);
        assert(command_rest(t) =~= sep.drop_first() + a);
        assert forall|i: int| 0 <= i < sep.drop_first().len() implies is_ws(
            #[trigger] sep.drop_first()[i],
        ) by {
            assert(sep.drop_first()[i] == sep[i + 1]);
        }
        lemma_trim_start_skips_ws(sep.drop_first(), a);
        assert(trim_start(a) == a);
        assert(trim_end(a) == a);
    } else {
        assert(core =~= w + sep);
        lemma_trim_end_of_ws(sep);
        lemma_trim_end_concat(w, sep);
        assert(trim_end(w) == w);
        assert(t == w);
        assert(w =~= w + Seq::<char>::empty());
        lemma_word_len_concat(w, Seq::<char>::empty());
        assert(command_word(t) =~= w);
        assert(command_rest(t) =~= a);
        assert(trim(a) == a);
    }
}

/// Law: a command word and an argument (without surrounding white space),
/// apart by white space and with any white space around the line, are read by
/// the word, in any ASCII case: `play` and `p` take the argument as the file;
/// `stop`/`s`, `status`/`st` and `quit`/`exit`/`q` ignore it; `fade`/`f` take
/// it as the speed when it is a `u8` and are no command otherwise; every other
/// word is no command.
pub proof fn law_command_words(
    pre: Seq<char>,
    w: Seq<char>,
    sep: Seq<char>,
    a: Seq<char>,
    post: Seq<char>,
)
    requires
        w.len() > 0,
        forall|i: int| 0 <= i < w.len() ==> !is_ws(#[trigger] w[i]),
        all_ws(pre),
        sep.len() > 0,
        all_ws(sep),
        all_ws(post),
        a.len() == 0 || (!is_ws(a[0]) && !is_ws(a.last())),
    ensures
        lower(w) == "play"@ || lower(w) == "p"@ ==> parse_command_spec(pre + w + sep + a + post)
            == Some(CmdModel::Play(a)),
        lower(w) == "stop"@ || lower(w) == "s"@ ==> parse_command_spec(pre + w + sep + a + post)
            == Some(CmdModel::Stop),
        lower(w) == "status"@ || lower(w) == "st"@ ==> parse_command_spec(pre + w + sep + a + post)
            == Some(CmdModel::Status),
        lower(w) == "quit"@ || lower(w) == "exit"@ || lower(w) == "q"@ ==> parse_command_spec(
            pre + w + sep + a + post,
        ) == Some(CmdModel::Quit),
        lower(w) == "fade"@ || lower(w) == "f"@ ==> parse_command_spec(pre + w + sep + a + post)
            == (match parse_u8(a) {
            Some(n) => Some(CmdModel::Fade(n)),
            None => None,
        }),
        !(lower(w) == "play"@ || lower(w) == "p"@ || lower(w) == "stop"@ || lower(w) == "s"@
            || lower(w) == "status"@ || lower(w) == "st"@ || lower(w) == "quit"@ || lower(w)
            == "exit"@ || lower(w) == "q"@ || lower(w) == "fade"@ || lower(w) == "f"@)
            ==> parse_command_spec(pre + w + sep + a + post) is None,
{
    reveal_strlit("play");
    reveal_strlit("p");
    reveal_strlit("stop");
    reveal_strlit("s");
    reveal_strlit("status");
    reveal_strlit("st");
    reveal_strlit("quit");
    reveal_strlit("exit");
    reveal_strlit("q");
    reveal_strlit("fade");
    reveal_strlit("f");
    assert("stop"@[0] != "play"@[0] && "s"@[0] != "p"@[0]);
    assert("status"@.len() != "play"@.len() && "status"@.len() != "stop"@.len());
    assert("st"@.len() != "p"@.len() && "st"@.len() != "s"@.len());
    lemma_command_line_parts(pre, w, sep, a, post);
    let cmd = lower(w);
    if cmd == "quit"@ || cmd == "exit"@ || cmd == "q"@ {
        assert(cmd != "play"@ && cmd != "p"@);
        assert(cmd != "stop"@ && cmd != "s"@);
        assert(cmd[0] != "fade"@[0] && cmd[0] != "f"@[0]);
        assert(cmd != "status"@ && cmd != "st"@);
    }
}

/// Whether `c` is Unicode white space (`char::is_whitespace`).
pub fn is_whitespace(c: char) -> (r: bool)
    ensures
        r == is_ws(c),
{
    let v = c as u32;
    (0x09 <= v && v <= 0x0D) || v == 0x20 || v == 0x85 || v == 0xA0 || v == 0x1680 || (0x2000 <= v
        && v <= 0x200A) || v == 0x2028 || v == 0x2029 || v == 0x202F || v == 0x205F || v == 0x3000
}

/// The bounds of `line[from..to]` without leading and trailing white space.
fn trim_bounds(line: &str, from: usize, to: usize) -> (r: (usize, usize))
    requires
        from <= to <= line@.len(),
    ensures
        from <= r.0 <= r.1 <= to,
        line@.subrange(r.0 as int, r.1 as int) == trim(line@.subrange(from as int, to as int)),
{
    let ghost s = line@;
    let mut a = from;
    while a < to && is_whitespace(line.get_char(a))
        invariant
            from <= a <= to <= s.len(),
            s == line@,
            trim_start(s.subrange(from as int, to as int)) == trim_start(
                s.subrange(a as int, to as int),
            ),
        decreases to - a,
    {
        assert(s.subrange(a as int, to as int).drop_first() == s.subrange(a + 1, to as int));
        a = a + 1;
    }
    assert(trim_start(s.subrange(a as int, to as int)) == s.subrange(a as int, to as int));
    let mut b = to;
    while b > a && is_whitespace(line.get_char(b - 1))
        invariant
            from <= a <= b <= to <= s.len(),
            s == line@,
            trim_end(s.subrange(a as int, to as int)) == trim_end(s.subrange(a as int, b as int)),
        decreases b - a,
    {
        assert(s.subrange(a as int, b as int).drop_last() == s.subrange(a as int, b - 1));
        b = b - 1;
    }
    (a, b)
}

/// Whether `line[from..to]`, with ASCII letters in lower case, is `word`.
fn lower_eq(line: &str, from: usize, to: usize, word: &str) -> (r: bool)
    requires
        from <= to <= line@.len(),
    ensures
        r == (lower(line@.subrange(from as int, to as int)) == word@),
{
    let ghost s = line@.subrange(from as int, to as int);
    let n = word.unicode_len();
    if to - from != n {
        assert(lower(s).len() != word@.len());
        return false;
    }
    let mut i: usize = 0;
    while i < n
        invariant
            n == word@.len() == to - from,
            from <= to <= line@.len(),
            s == line@.subrange(from as int, to as int),
            i <= n,
            forall|j: int| 0 <= j < i ==> ascii_lower(s[j]) == word@[j],
        decreases n - i,
    {
        let c = line.get_char(from + i);
        let w = word.get_char(i);
        let same = if 'A' <= c && c <= 'Z' {
            c as u32 + 32 == w as u32
        } else {
            c == w
        };
        if !same {
            assert(lower(s)[i as int] != word@[i as int]);
            return false;
        }
        i = i + 1;
    }
    assert(lower(s) =~= word@);
    true
}

proof fn lemma_digits_value_nonneg(s: Seq<char>)
    requires
        all_digits(s),
    ensures
        digits_value(s) >= 0,
    decreases s.len(),
{
    if s.len() > 0 {
        assert(all_digits(s.drop_last()));
        lemma_digits_value_nonneg(s.drop_last());
        assert('0' <= s[s.len() - 1]);
    }
}

proof fn lemma_digits_value_grows(s: Seq<char>, i: int)
    requires
        all_digits(s),
        0 <= i <= s.len(),
    ensures
        digits_value(s.take(i)) <= digits_value(s),
    decreases s.len() - i,
{
    if i < s.len() {
        lemma_digits_value_grows(s, i + 1);
        assert(s.take(i + 1).drop_last() == s.take(i));
        assert(s.take(i + 1).last() == s[i]);
        assert('0' <= s[i]);
        assert(all_digits(s.take(i)));
        lemma_digits_value_nonneg(s.take(i));
    } else {
        assert(s.take(i) == s);
    }
}

/// `line[from..to]` parsed as a `u8` (`str::parse::<u8>`).
fn parse_u8_at(line: &str, from: usize, to: usize) -> (r: Option<u8>)
    requires
        from <= to <= line@.len(),
    ensures
        r == parse_u8(line@.subrange(from as int, to as int)),
{
    let ghost s = line@.subrange(from as int, to as int);
    let start = if from < to && line.get_char(from) == '+' {
        from + 1
    } else {
        from
    };
    let ghost d = line@.subrange(start as int, to as int);
    assert(start > from ==> d == s.drop_first());
    assert(start == from ==> d == s);
    assert(from < to ==> s[0] == line@[from as int]);
    if start == to {
        return None;
    }
    let mut v: u32 = 0;
    let mut i = start;
    while i < to
        invariant
            from <= start < to <= line@.len(),
            start <= i <= to,
            d == line@.subrange(start as int, to as int),
            s == line@.subrange(from as int, to as int),
            d == (if s.len() > 0 && s[0] == '+' {
                s.drop_first()
            } else {
                s
            }),
            all_digits(d.take(i - start)),
            v == digits_value(d.take(i - start)),
            v <= 255,
        decreases to - i,
    {
        let c = line.get_char(i);
        assert(d[i - start] == c);
        if !('0' <= c && c <= '9') {
            assert(!all_digits(d));
            return None;
        }
        assert(d.take(i + 1 - start).drop_last() == d.take(i - start));
        let nv = v * 10 + (c as u32 - '0' as u32);
        assert(d.take(i + 1 - start).last() == c);
        assert(digits_value(d.take(i + 1 - start)) == nv);
        if nv > 255 {
            proof {
                assert(all_digits(d.take(i + 1 - start)));
                if all_digits(d) {
                    lemma_digits_value_grows(d, i + 1 - start);
                }
            }
            return None;
        }
        v = nv;
        i = i + 1;
    }
    assert(d.take(to - start) == d);
    Some(v as u8)
}

/// Parses a line of the control language (see [`parse_command_spec`]).
pub fn parse_command(line: &str) -> (r: Option<CmdKind>)
    ensures
        opt_model(r) == parse_command_spec(line@),
{
    let len = line.unicode_len();
    let (a, b) = trim_bounds(line, 0, len);
    let ghost t = line@.subrange(a as int, b as int);
    assert(line@.subrange(0, len as int) == line@);
    if a == b {
        return None;
    }
    // The command word ends at the first white space.

    let mut k = a;
    while k < b && !is_whitespace(line.get_char(k))
        invariant
            a <= k <= b <= line@.len(),
            t == line@.subrange(a as int, b as int),
            word_len(t) == (k - a) + word_len(line@.subrange(k as int, b as int)),
        decreases b - k,
    {
        assert(line@.subrange(k as int, b as int).drop_first() == line@.subrange(k + 1, b as int));
        k = k + 1;
    }
    assert(word_len(line@.subrange(k as int, b as int)) == 0);
    assert(command_word(t) == line@.subrange(a as int, k as int));
    let (c, d) = if k < b {
        assert(command_rest(t) == line@.subrange(k + 1, b as int));
        trim_bounds(line, k + 1, b)
    } else {
        assert(command_rest(t) == line@.subrange(b as int, b as int));
        trim_bounds(line, b, b)
    };
    if lower_eq(line, a, k, "play") || lower_eq(line, a, k, "p") {
        let arg = line.substring_char(c, d);
        Some(CmdKind::Play(arg.to_owned()))
    } else if lower_eq(line, a, k, "stop") || lower_eq(line, a, k, "s") {
        Some(CmdKind::Stop)
    } else if lower_eq(line, a, k, "fade") || lower_eq(line, a, k, "f") {
        match parse_u8_at(line, c, d) {
            Some(n) => Some(CmdKind::Fade(n)),
            None => None,
        }
    } else if lower_eq(line, a, k, "status") || lower_eq(line, a, k, "st") {
        Some(CmdKind::Status)
    } else if lower_eq(line, a, k, "quit") || lower_eq(line, a, k, "exit") || lower_eq(
        line,
        a,
        k,
        "q",
    ) {
        Some(CmdKind::Quit)
    } else {
        None
    }
}

/// What the prompt does with a line it read.
#[derive(PartialEq, Eq, Debug)]
pub enum PromptAction {
    /// Hand the command to the player.
    Run(CmdKind),
    /// Not a command: show the usage line.
    Help,
    /// A blank line: nothing.
    Ignore,
}

/// What a control connection does with a line it read.
#[derive(PartialEq, Eq, Debug)]
pub enum TcpAction {
    /// A blank line: nothing.
    Skip,
    /// `quit`: answer `bye` and close this connection only (the host keeps running).
    Close,
    /// Hand the command to the player and send back its answer.
    Run(CmdKind),
    /// Not a command: answer `? unknown`.
    Unknown,
}

/// The prompt's rule: a command runs; a non-blank line that is no command
/// gets the usage line; a blank line is ignored.
pub fn prompt_action(line: &str) -> (r: PromptAction)
    ensures
        match r {
            PromptAction::Run(k) => parse_command_spec(line@) == Some(k.model()),
            PromptAction::Help => parse_command_spec(line@) is None && trim(line@).len() > 0,
            PromptAction::Ignore => parse_command_spec(line@) is None && trim(line@).len() == 0,
        },
{
    match parse_command(line) {
        Some(kind) => PromptAction::Run(kind),
        None => {
            let len = line.unicode_len();
            let (a, b) = trim_bounds(line, 0, len);
            assert(line@.subrange(0, len as int) == line@);
            if a == b {
                PromptAction::Ignore
            } else {
                PromptAction::Help
            }
        },
    }
}

/// A control connection's rule: blank lines are skipped, `quit` closes the
/// connection, other commands run, anything else is unknown.
pub fn tcp_action(line: &str) -> (r: TcpAction)
    ensures
        match r {
            TcpAction::Skip => trim(line@).len() == 0,
            TcpAction::Close => trim(line@).len() > 0 && parse_command_spec(line@) == Some(
                CmdModel::Quit,
            ),
            TcpAction::Run(k) => trim(line@).len() > 0 && parse_command_spec(line@) == Some(
                k.model(),
            ) && k.model() != CmdModel::Quit,
            TcpAction::Unknown => trim(line@).len() > 0 && parse_command_spec(line@) is None,
        },
{
    let len = line.unicode_len();
    let (a, b) = trim_bounds(line, 0, len);
    assert(line@.subrange(0, len as int) == line@);
    if a == b {
        return TcpAction::Skip;
    }
    match parse_command(line) {
        Some(CmdKind::Quit) => TcpAction::Close,
        Some(kind) => TcpAction::Run(kind),
        None => TcpAction::Unknown,
    }
}

/// Where a `play` request may read its song from.
#[derive(PartialEq, Eq, Debug)]
pub enum PlayTarget {
    /// A request from the prompt: the path as given.
    Local(String),
    /// A request over TCP: the canonical path, by its components, inside the
    /// music directory.
    Remote(Vec<String>),
}

/// Why a `play` request was refused.
#[derive(PartialEq, Eq, Structural, Debug)]
pub enum PlayPathError {
    /// Remote play is off: no music directory is configured.
    RemoteDisabled,
    /// The path does not lie inside the music directory.
    OutsideMusicDir,
}

/// `dir` is a leading part of `path`, component by component.
pub open spec fn is_path_prefix(dir: Seq<String>, path: Seq<String>) -> bool {
    &&& dir.len() <= path.len()
    &&& forall|i: int| 0 <= i < dir.len() ==> #[trigger] dir[i]@ == path[i]@
}

/// Resolves the path of a `play` request. From the prompt any path is taken
/// as it is. Over TCP only paths inside the music directory are allowed, and
/// none when no music directory is set. `canonical` holds the canonical
/// components of the music directory joined with the path and of the music
/// directory itself, when both could be resolved; a path that escapes the
/// directory (`..`, links) or cannot be resolved is refused.
pub fn resolve_play_path(
    path: &str,
    remote: bool,
    has_music_dir: bool,
    canonical: Option<(Vec<String>, Vec<String>)>,
) -> (r: Result<PlayTarget, PlayPathError>)
    ensures
        !remote ==> (r matches Ok(PlayTarget::Local(p)) && p@ == path@),
        remote && !has_music_dir ==> r matches Err(PlayPathError::RemoteDisabled),
        remote && has_music_dir ==> match canonical {
            Some((joined, dir)) => if is_path_prefix(dir@, joined@) {
                (r matches Ok(PlayTarget::Remote(p)) && p@ == joined@)
            } else {
                r matches Err(PlayPathError::OutsideMusicDir)
            },
            None => r matches Err(PlayPathError::OutsideMusicDir),
        },
{
    if !remote {
        return Ok(PlayTarget::Local(path.to_owned()));
    }
    if !has_music_dir {
        return Err(PlayPathError::RemoteDisabled);
    }
    match canonical {
        Some((joined, dir)) => {
            if dir.len() > joined.len() {
                return Err(PlayPathError::OutsideMusicDir);
            }
            let mut i: usize = 0;
            while i < dir.len()
                invariant
                    remote,
                    has_music_dir,
                    canonical == Some((joined, dir)),
                    i <= dir.len() <= joined.len(),
                    forall|j: int| 0 <= j < i ==> #[trigger] dir@[j]@ == joined@[j]@,
                decreases dir.len() - i,
            {
                if dir[i] != joined[i] {
                    return Err(PlayPathError::OutsideMusicDir);
                }
                i = i + 1;
            }
            Ok(PlayTarget::Remote(joined))
        },
        None => Err(PlayPathError::OutsideMusicDir),
    }
}

} // verus!
