//! Managed command sessions: argv handling, shell quoting, tmux names and
//! the session records kept in the state.

use vstd::prelude::*;

use crate::domain::{session_views, SessionBackend, SessionRecord, SessionRecordV, SessionStatus, State};
use crate::error::{AppError, AppResult};
use crate::text::{chars_of, join, push_char, str_eq, views};

verus! {

// ---------------------------------------------------------------------
// POSIX shell quoting
// ---------------------------------------------------------------------

/// Characters a shell word may hold unquoted.
pub open spec fn shell_safe(c: char) -> bool {
    ('a' <= c && c <= 'z') || ('A' <= c && c <= 'Z') || ('0' <= c && c <= '9') || c == '_' || c
        == '-' || c == '.' || c == '/' || c == ':' || c == '=' || c == '+' || c == ','
}

pub fn is_shell_safe(c: char) -> (r: bool)
    ensures
        r == shell_safe(c),
{
    ('a' <= c && c <= 'z') || ('A' <= c && c <= 'Z') || ('0' <= c && c <= '9') || c == '_' || c
        == '-' || c == '.' || c == '/' || c == ':' || c == '=' || c == '+' || c == ','
}

pub open spec fn all_safe(s: Seq<char>) -> bool {
    forall|i: int| 0 <= i < s.len() ==> shell_safe(#[trigger] s[i])
}

/// The text of one character inside single quotes: a quote closes the
/// quoting, is escaped, and reopens it.
pub open spec fn quote_piece(c: char) -> Seq<char> {
    if c == '\'' {
        seq!['\'', '\\', '\'', '\'']
    } else {
        seq![c]
    }
}

pub open spec fn quote_body(s: Seq<char>) -> Seq<char>
    decreases s.len(),
{
    if s.len() == 0 {
        seq![]
    } else {
        quote_piece(s[0]) + quote_body(s.drop_first())
    }
}

/// A word the shell reads back as `s`: `''` for the empty string, `s`
/// itself when every character is safe, else `s` in single quotes.
pub open spec fn spec_posix_quote(s: Seq<char>) -> Seq<char> {
    if s.len() == 0 {
        seq!['\'', '\'']
    } else if all_safe(s) {
        s
    } else {
        seq!['\''] + quote_body(s) + seq!['\'']
    }
}

proof fn lemma_quote_body_append(a: Seq<char>, b: Seq<char>)
    ensures
        quote_body(a + b) == quote_body(a) + quote_body(b),
    decreases a.len(),
{
    if a.len() == 0 {
        assert(a + b =~= b);
    } else {
        assert((a + b).drop_first() =~= a.drop_first() + b);
        lemma_quote_body_append(a.drop_first(), b);
    }
}

/// Quotes a word for a POSIX shell.
pub fn posix_quote(value: &str) -> (r: String)
    ensures
        r@ == spec_posix_quote(value@),
{
    let v = chars_of(value);
    if v.len() == 0 {
        let mut r = String::new();
        push_char(&mut r, '\'');
        push_char(&mut r, '\'');
        return r;
    }
    let mut safe = true;
    let mut i: usize = 0;
    while i < v.len()
        invariant
            i <= v@.len(),
            safe == all_safe(v@.take(i as int)),
        decreases v@.len() - i,
    {
        let ghost pre = v@.take(i as int);
        if !is_shell_safe(v[i]) {
            safe = false;
        }
        assert(v@.take(i + 1) =~= pre.push(v@[i as int]));
        proof {
            if all_safe(pre) && shell_safe(v@[i as int]) {
                assert(all_safe(v@.take(i + 1)));
            }
            if !shell_safe(v@[i as int]) {
                assert(v@.take(i + 1)[i as int] == v@[i as int]);
            }
            if !all_safe(pre) {
                let j = choose|j: int| 0 <= j < pre.len() && !shell_safe(#[trigger] pre[j]);
                assert(v@.take(i + 1)[j] == pre[j]);
            }
        }
        i = i + 1;
    }
    assert(v@.take(v@.len() as int) =~= v@);
    if safe {
        return value.to_owned();
    }
    let mut r = String::new();
    push_char(&mut r, '\'');
    let mut k: usize = 0;
    while k < v.len()
        invariant
            k <= v@.len(),
            v@ == value@,
            r@ == seq!['\''] + quote_body(v@.take(k as int)),
        decreases v@.len() - k,
    {
        let ghost before = r@;
        if v[k] == '\'' {
            push_char(&mut r, '\'');
            push_char(&mut r, '\\');
            push_char(&mut r, '\'');
            push_char(&mut r, '\'');
        } else {
            push_char(&mut r, v[k]);
        }
        proof {
            lemma_quote_body_append(v@.take(k as int), seq![v@[k as int]]);
            assert(v@.take(k + 1) =~= v@.take(k as int) + seq![v@[k as int]]);
            let one = seq![v@[k as int]];
            assert(one.drop_first() =~= Seq::<char>::empty());
            assert(quote_body(one.drop_first()) == Seq::<char>::empty());
            assert(one[0] == v@[k as int]);
            assert(quote_body(one) == quote_piece(one[0]) + quote_body(one.drop_first()));
            assert(quote_body(one) =~= quote_piece(v@[k as int]));
            assert(r@ =~= seq!['\''] + quote_body(v@.take(k + 1)));
        }
        k = k + 1;
    }
    push_char(&mut r, '\'');
    assert(v@.take(v@.len() as int) =~= v@);
    r
}

// ---------------------------------------------------------------------
// Reading a quoted word back, as a POSIX shell does
// ---------------------------------------------------------------------

/// The characters a shell reads from `s` outside quotes: a single quote
/// opens a quoted run, a backslash escapes the next character.
pub open spec fn sh_unquoted(s: Seq<char>) -> Seq<char>
    decreases s.len(), 1int,
{
    if s.len() == 0 {
        seq![]
    } else if s[0] == '\'' {
        sh_quoted(s.drop_first())
    } else if s[0] == '\\' && s.len() >= 2 {
        seq![s[1]] + sh_unquoted(s.skip(2))
    } else {
        seq![s[0]] + sh_unquoted(s.drop_first())
    }
}

/// The characters a shell reads from `s` inside single quotes.
pub open spec fn sh_quoted(s: Seq<char>) -> Seq<char>
    decreases s.len(), 0int,
{
    if s.len() == 0 {
        seq![]
    } else if s[0] == '\'' {
        sh_unquoted(s.drop_first())
    } else {
        seq![s[0]] + sh_quoted(s.drop_first())
    }
}

proof fn lemma_quoted_body(v: Seq<char>, rest: Seq<char>)
    ensures
        sh_quoted(quote_body(v) + seq!['\''] + rest) == v + sh_unquoted(rest),
    decreases v.len(),
{
    if v.len() == 0 {
        assert(quote_body(v) + seq!['\''] + rest =~= seq!['\''] + rest);
        assert((seq!['\''] + rest).drop_first() =~= rest);
        assert(v + sh_unquoted(rest) =~= sh_unquoted(rest));
    } else {
        let c = v[0];
        let t = v.drop_first();
        lemma_quoted_body(t, rest);
        let tail = quote_body(t) + seq!['\''] + rest;
        if c == '\'' {
            let s = seq!['\'', '\\', '\'', '\''] + tail;
            assert(quote_body(v) + seq!['\''] + rest =~= s);
            assert(s.drop_first() =~= seq!['\\', '\'', '\''] + tail);
            let s1 = seq!['\\', '\'', '\''] + tail;
            assert(s1.skip(2) =~= seq!['\''] + tail);
            assert((seq!['\''] + tail).drop_first() =~= tail);
            assert(sh_unquoted(seq!['\''] + tail) == sh_quoted(tail));
            assert(sh_unquoted(s1) == seq!['\''] + sh_unquoted(s1.skip(2)));
            assert(v =~= seq![c] + t);
            assert(seq!['\''] + (t + sh_unquoted(rest)) =~= v + sh_unquoted(rest));
        } else {
            let s = seq![c] + tail;
            assert(quote_body(v) + seq!['\''] + rest =~= s);
            assert(s.drop_first() =~= tail);
            assert(seq![c] + (t + sh_unquoted(rest)) =~= v + sh_unquoted(rest));
        }
    }
}

proof fn lemma_unquoted_safe(s: Seq<char>)
    requires
        all_safe(s),
    ensures
        sh_unquoted(s) == s,
    decreases s.len(),
{
    if s.len() > 0 {
        assert(shell_safe(s[0]));
        assert(all_safe(s.drop_first())) by {
            assert forall|i: int| 0 <= i < s.drop_first().len() implies shell_safe(
                #[trigger] s.drop_first()[i],
            ) by {
                assert(s.drop_first()[i] == s[i + 1]);
            }
        }
        lemma_unquoted_safe(s.drop_first());
        assert(seq![s[0]] + s.drop_first() =~= s);
    }
}

/// A quoted word reads back as the original: the shell sees exactly the
/// argument that was quoted.
pub proof fn lemma_posix_quote_round_trip(s: Seq<char>)
    ensures
        sh_unquoted(spec_posix_quote(s)) == s,
{
    if s.len() == 0 {
        let q = seq!['\'', '\''];
        assert(q.drop_first() =~= seq!['\'']);
        assert(seq!['\''].drop_first() =~= Seq::<char>::empty());
        assert(sh_quoted(seq!['\'']) == sh_unquoted(Seq::<char>::empty()));
        assert(sh_unquoted(q) == sh_quoted(seq!['\'']));
        assert(s =~= Seq::<char>::empty());
    } else if all_safe(s) {
        lemma_unquoted_safe(s);
    } else {
        let w = seq!['\''] + quote_body(s) + seq!['\''];
        assert(w[0] == '\'');
        assert(sh_unquoted(w) == sh_quoted(w.drop_first()));
        assert(w.drop_first() =~= quote_body(s) + seq!['\''] + Seq::<char>::empty());
        lemma_quoted_body(s, Seq::<char>::empty());
        assert(s + Seq::<char>::empty() =~= s);
    }
}

// ---------------------------------------------------------------------
// Command specs
// ---------------------------------------------------------------------

/// The argv of a command to run, never empty.
#[derive(Debug, PartialEq, Eq)]
pub struct CommandSpec {
    argv: Vec<String>,
}

impl CommandSpec {
    pub closed spec fn args(&self) -> Seq<Seq<char>> {
        views(self.argv@)
    }

    pub open spec fn well_formed(&self) -> bool {
        self.args().len() > 0
    }

    /// A command from its argv; an empty argv is refused.
    pub fn new(argv: Vec<String>) -> (r: AppResult<Self>)
        ensures
            argv@.len() == 0 ==> (r matches Err(AppError::InvalidCommand(m)) && m@
                == "expected command after `--`"@),
            argv@.len() > 0 ==> (r matches Ok(c) && c.args() == views(argv@) && c.well_formed()),
    {
        if argv.len() == 0 {
            return Err(AppError::InvalidCommand("expected command after `--`".to_owned()));
        }
        let r = CommandSpec { argv };
        assert(r.args().len() > 0);
        Ok(r)
    }

    /// The argv, unchanged.
    pub fn argv(&self) -> (r: &[String])
        ensures
            views(r@) == self.args(),
    {
        self.argv.as_slice()
    }

    /// The argv as one POSIX shell command line: each argument quoted, the
    /// arguments separated by single spaces.
    pub fn to_posix_shell_command(&self) -> (r: String)
        ensures
            r@ == join(self.args().map_values(|a: Seq<char>| spec_posix_quote(a)), seq![' ']),
    {
        let mut parts: Vec<String> = Vec::new();
        let mut i: usize = 0;
        while i < self.argv.len()
            invariant
                i <= self.argv@.len(),
                views(parts@) == self.args().take(i as int).map_values(
                    |a: Seq<char>| spec_posix_quote(a),
                ),
            decreases self.argv@.len() - i,
        {
            let q = posix_quote(self.argv[i].as_str());
            let ghost before = parts@;
            let ghost qv = q@;
            parts.push(q);
            assert(self.args()[i as int] == self.argv@[i as int]@);
            assert(views(parts@) =~= views(before).push(qv));
            assert(views(parts@) =~= self.args().take(i + 1).map_values(
                |a: Seq<char>| spec_posix_quote(a),
            ));
            i = i + 1;
        }
        assert(self.args().take(self.argv@.len() as int) =~= self.args());
        proof {
            reveal_strlit(" ");
            assert(" "@ =~= seq![' ']);
        }
        crate::text::join_strings(&parts, " ")
    }
}

} // verus!

verus! {

use vstd::utf8::encode_utf8;
use crate::text::{lines, line_ranges, range_views, string_of, trim, trim_range, first_char, find_char};

// ---------------------------------------------------------------------
// tmux session names
// ---------------------------------------------------------------------

/// The character a tmux session name keeps: ASCII letters, digits, `-`,
/// `_` and `.` stay, anything else becomes `_`.
pub open spec fn tmux_char(c: char) -> char {
    if ('a' <= c && c <= 'z') || ('A' <= c && c <= 'Z') || ('0' <= c && c <= '9') || c == '-' || c
        == '_' || c == '.' {
        c
    } else {
        '_'
    }
}

fn tmux_char_of(c: char) -> (r: char)
    ensures
        r == tmux_char(c),
{
    if ('a' <= c && c <= 'z') || ('A' <= c && c <= 'Z') || ('0' <= c && c <= '9') || c == '-' || c
        == '_' || c == '.' {
        c
    } else {
        '_'
    }
}

/// 32-bit FNV-1a over bytes.
pub open spec fn fnv1a(bs: Seq<u8>) -> u32
    decreases bs.len(),
{
    if bs.len() == 0 {
        0x811c9dc5u32
    } else {
        vstd::wrapping::u32_specs::wrapping_mul(fnv1a(bs.drop_last()) ^ (bs.last() as u32), 0x01000193u32)
    }
}

/// A stable 32-bit hash of a string's UTF-8 bytes.
pub fn stable_hash(input: &str) -> (r: u32)
    ensures
        r == fnv1a(encode_utf8(input@)),
{
    let bytes = input.as_bytes();
    let mut hash: u32 = 0x811c9dc5u32;
    let mut i: usize = 0;
    while i < bytes.len()
        invariant
            bytes@ == encode_utf8(input@),
            i <= bytes@.len(),
            hash == fnv1a(bytes@.take(i as int)),
        decreases bytes@.len() - i,
    {
        assert(bytes@.take(i + 1).drop_last() =~= bytes@.take(i as int));
        hash = (hash ^ (bytes[i] as u32)).wrapping_mul(0x01000193u32);
        i = i + 1;
    }
    assert(bytes@.take(bytes@.len() as int) =~= bytes@);
    hash
}

pub open spec fn hex_digit(d: u32) -> char {
    if d < 10 {
        digit_char_u32(d)
    } else if d == 10 { 'a' }
    else if d == 11 { 'b' }
    else if d == 12 { 'c' }
    else if d == 13 { 'd' }
    else if d == 14 { 'e' }
    else { 'f' }
}

pub open spec fn digit_char_u32(d: u32) -> char {
    crate::text::digit_char(d as nat)
}

/// The eight lower-case hex digits of `h`, most significant first.
pub open spec fn hex8(h: u32) -> Seq<char> {
    Seq::new(8, |i: int| hex_digit((h >> ((28 - 4 * i) as u32)) & 15u32))
}

fn hex_digit_of(d: u32) -> (c: char)
    requires
        d < 16,
    ensures
        c == hex_digit(d),
{
    if d == 0 { '0' }
    else if d == 1 { '1' }
    else if d == 2 { '2' }
    else if d == 3 { '3' }
    else if d == 4 { '4' }
    else if d == 5 { '5' }
    else if d == 6 { '6' }
    else if d == 7 { '7' }
    else if d == 8 { '8' }
    else if d == 9 { '9' }
    else if d == 10 { 'a' }
    else if d == 11 { 'b' }
    else if d == 12 { 'c' }
    else if d == 13 { 'd' }
    else if d == 14 { 'e' }
    else { 'f' }
}

fn push_hex8(s: &mut String, h: u32)
    ensures
        final(s)@ == old(s)@ + hex8(h),
{
    let mut i: u32 = 0;
    while i < 8
        invariant
            i <= 8,
            s@ == old(s)@ + hex8(h).take(i as int),
        decreases 8 - i,
    {
        let shift: u32 = 28 - 4 * i;
        let d = (h >> shift) & 15u32;
        assert(((h >> shift) & 15u32) < 16) by (bit_vector);
        let c = hex_digit_of(d);
        push_char(s, c);
        assert(hex8(h)[i as int] == c);
        assert(s@ =~= old(s)@ + hex8(h).take(i + 1));
        i = i + 1;
    }
    assert(hex8(h).take(8) =~= hex8(h));
}

pub open spec fn trailing_sep(c: char) -> bool {
    c == '-' || c == '_' || c == '.'
}

/// `s` without trailing `-`, `_` and `.`.
pub open spec fn trim_seps(s: Seq<char>) -> Seq<char>
    decreases s.len(),
{
    if s.len() > 0 && trailing_sep(s.last()) {
        trim_seps(s.drop_last())
    } else {
        s
    }
}

/// The longest name part that fits: "workroot-" and the 9-character hash
/// suffix take 18 of tmux's 80.
pub open spec fn max_name_part() -> nat {
    62
}

/// The managed tmux session name for a repo and target: `workroot-`, the
/// sanitized `repo-target` (cut to fit and without trailing separators
/// when cut), then `-` and eight hex digits of a hash of the exact names,
/// so that names which sanitize alike still differ.
pub open spec fn spec_tmux_session_name(repo_alias: Seq<char>, target: Seq<char>) -> Seq<char> {
    let raw = repo_alias + "-"@ + target;
    let s0 = raw.map_values(|c: char| tmux_char(c));
    let s1 = if s0.len() == 0 { "session"@ } else { s0 };
    let cut = if s1.len() > max_name_part() { trim_seps(s1.take(max_name_part() as int)) } else { s1 };
    let h = fnv1a(encode_utf8(repo_alias + "\0"@ + target));
    "workroot-"@ + cut + seq!['-'] + hex8(h)
}

proof fn lemma_trim_seps_prefix(s: Seq<char>)
    ensures
        trim_seps(s).len() <= s.len(),
        trim_seps(s) == s.take(trim_seps(s).len() as int),
    decreases s.len(),
{
    if s.len() > 0 && trailing_sep(s.last()) {
        lemma_trim_seps_prefix(s.drop_last());
        assert(trim_seps(s) =~= s.take(trim_seps(s).len() as int));
    } else {
        assert(s.take(s.len() as int) =~= s);
    }
}

/// The name of the managed tmux session for a repo and target.
pub fn sanitize_tmux_session_name(repo_alias: &str, target: &str) -> (r: String)
    ensures
        r@ == spec_tmux_session_name(repo_alias@, target@),
        r@.len() <= 80,
        crate::text::starts_with(r@, "workroot-"@),
        !r@.contains(':'),
{
    let mut raw = repo_alias.to_owned();
    raw.append("-");
    raw.append(target);
    let v = chars_of(raw.as_str());
    let ghost s0 = raw@.map_values(|c: char| tmux_char(c));
    let mut mapped: Vec<char> = Vec::new();
    let mut i: usize = 0;
    while i < v.len()
        invariant
            v@ == raw@,
            s0 == raw@.map_values(|c: char| tmux_char(c)),
            i <= v@.len(),
            mapped@ == s0.take(i as int),
        decreases v@.len() - i,
    {
        mapped.push(tmux_char_of(v[i]));
        assert(mapped@ =~= s0.take(i + 1));
        i = i + 1;
    }
    assert(s0.take(v@.len() as int) =~= s0);
    proof {
        reveal_strlit("session");
        reveal_strlit("workroot-");
        reveal_strlit("-");
    }
    let s1: Vec<char> = if mapped.len() == 0 { chars_of("session") } else { mapped };
    let mut end = s1.len();
    if end > 62 {
        end = 62;
        while end > 0 && (s1[end - 1] == '-' || s1[end - 1] == '_' || s1[end - 1] == '.')
            invariant
                end <= 62 < s1@.len(),
                trim_seps(s1@.take(62)) == trim_seps(s1@.take(end as int)),
            decreases end,
        {
            assert(s1@.take(end as int).drop_last() =~= s1@.take(end - 1));
            end = end - 1;
        }
        assert(s1@.take(end as int).len() == 0 || !trailing_sep(s1@.take(end as int).last()));
    }
    let ghost cut = if s1@.len() > 62 { trim_seps(s1@.take(62)) } else { s1@ };
    assert(s1@.subrange(0, end as int) == cut) by {
        if s1@.len() > 62 {
            assert(s1@.take(end as int) =~= s1@.subrange(0, end as int));
        } else {
            assert(s1@.subrange(0, end as int) =~= s1@);
        }
    }
    let mut key = repo_alias.to_owned();
    key.append("\0");
    key.append(target);
    let h = stable_hash(key.as_str());
    let mut out = "workroot-".to_owned();
    let name = string_of(&s1, 0, end);
    out.append(name.as_str());
    push_char(&mut out, '-');
    push_hex8(&mut out, h);
    proof {
        assert(end <= 62);
        assert(out@ =~= "workroot-"@ + cut + seq!['-'] + hex8(h));
        assert(crate::text::starts_with(out@, "workroot-"@)) by {
            assert(out@.subrange(0, 9) =~= "workroot-"@);
        }
        assert forall|j: int| 0 <= j < out@.len() implies out@[j] != ':' by {
            if j < 9 {
                assert(out@[j] == "workroot-"@[j]);
            } else if j < 9 + cut.len() {
                assert(out@[j] == cut[j - 9]);
                assert(cut[j - 9] == s1@[j - 9]);
                if mapped@.len() > 0 || s1@ != "session"@ {
                } 
            } else if j == 9 + cut.len() {
            } else {
                let d = (h >> ((28 - 4 * (j - 10 - cut.len())) as u32)) & 15u32;
                assert(out@[j] == hex8(h)[j - 10 - cut.len()]);
            }
        }
    }
    out
}

} // verus!

verus! {

// ---------------------------------------------------------------------
// tmux inventory
// ---------------------------------------------------------------------

/// Whether a managed session exists in tmux.
#[derive(Debug, Clone, Copy, PartialEq, Eq, Structural)]
pub enum ExistingSession {
    Running,
    Missing,
}

/// The tmux executable Workroot drives.
#[derive(Debug, PartialEq, Eq)]
pub struct Tmux {
    executable: String,
}

impl Tmux {
    pub closed spec fn program(&self) -> Seq<char> {
        self.executable@
    }

    pub fn new(executable: String) -> (r: Self)
        ensures
            r.program() == executable@,
    {
        Tmux { executable }
    }

    /// The tmux found on the search path.
    pub fn default_tmux() -> (r: Self)
        ensures
            r.program() == "tmux"@,
    {
        Tmux { executable: "tmux".to_owned() }
    }

    pub fn executable(&self) -> (r: &String)
        ensures
            r@ == self.program(),
    {
        &self.executable
    }
}

/// One tmux pane: its session, working directory and foreground command.
#[derive(Debug, PartialEq, Eq)]
pub struct TmuxPane {
    pub session_name: String,
    pub current_path: String,
    pub current_command: String,
}

pub struct TmuxPaneV {
    pub session_name: Seq<char>,
    pub current_path: Seq<char>,
    pub current_command: Seq<char>,
}

impl View for TmuxPane {
    type V = TmuxPaneV;

    open spec fn view(&self) -> TmuxPaneV {
        TmuxPaneV {
            session_name: self.session_name@,
            current_path: self.current_path@,
            current_command: self.current_command@,
        }
    }
}

impl TmuxPane {
    pub fn duplicate(&self) -> (r: Self)
        ensures
            r@ == self@,
    {
        TmuxPane {
            session_name: self.session_name.clone(),
            current_path: self.current_path.clone(),
            current_command: self.current_command.clone(),
        }
    }
}

pub open spec fn pane_views(v: Seq<TmuxPane>) -> Seq<TmuxPaneV> {
    v.map_values(|p: TmuxPane| p@)
}

/// One line of `tmux list-panes -F '#{session_name}\t#{pane_current_path}\t#{pane_current_command}'`:
/// the line splits at its first two tabs, each part is trimmed, and lines
/// with fewer than three parts or no session name are skipped.
pub open spec fn pane_line(line: Seq<char>) -> Option<TmuxPaneV> {
    let t1 = first_char(line, '\t');
    if t1 >= line.len() {
        None
    } else {
        let rest = line.skip(t1 as int + 1);
        let t2 = first_char(rest, '\t');
        if t2 >= rest.len() {
            None
        } else {
            let s = trim(line.take(t1 as int));
            if s.len() == 0 {
                None
            } else {
                Some(
                    TmuxPaneV {
                        session_name: s,
                        current_path: trim(rest.take(t2 as int)),
                        current_command: trim(rest.skip(t2 as int + 1)),
                    },
                )
            }
        }
    }
}

pub open spec fn panes_of_lines(ls: Seq<Seq<char>>) -> Seq<TmuxPaneV>
    decreases ls.len(),
{
    if ls.len() == 0 {
        seq![]
    } else {
        let rest = panes_of_lines(ls.drop_last());
        match pane_line(ls.last()) {
            Some(p) => rest.push(p),
            None => rest,
        }
    }
}

/// Parses tmux's pane listing.
pub fn parse_tmux_list_panes(input: &str) -> (r: Vec<TmuxPane>)
    ensures
        pane_views(r@) == panes_of_lines(lines(input@)),
        forall|i: int| 0 <= i < r@.len() ==> (#[trigger] r@[i]).session_name@.len() > 0,
{
    let v = chars_of(input);
    let rs = line_ranges(&v);
    let ghost ls = lines(v@);
    let mut out: Vec<TmuxPane> = Vec::new();
    let mut i: usize = 0;
    assert(ls.take(0) =~= Seq::<Seq<char>>::empty());
    assert(pane_views(out@) =~= Seq::<TmuxPaneV>::empty());
    while i < rs.len()
        invariant
            v@ == input@,
            ls == lines(v@),
            range_views(v@, rs@) == ls,
            forall|j: int| 0 <= j < rs@.len() ==> (#[trigger] rs@[j]).0 <= rs@[j].1 <= v@.len(),
            i <= rs@.len(),
            pane_views(out@) == panes_of_lines(ls.take(i as int)),
            forall|j: int| 0 <= j < out@.len() ==> (#[trigger] out@[j]).session_name@.len() > 0,
        decreases rs@.len() - i,
    {
        let (lo, hi) = rs[i];
        let ghost line = v@.subrange(lo as int, hi as int);
        assert(ls[i as int] == line);
        assert(ls.take(i + 1).drop_last() =~= ls.take(i as int));
        assert(ls.take(i + 1).last() == line);
        let t1 = find_char(&v, lo, hi, '\t');
        if t1 < hi {
            let t2 = find_char(&v, t1 + 1, hi, '\t');
            assert(line.skip(t1 - lo + 1) =~= v@.subrange(t1 + 1, hi as int));
            if t2 < hi {
                let (a0, a1) = trim_range(&v, lo, t1);
                let (b0, b1) = trim_range(&v, t1 + 1, t2);
                let (c0, c1) = trim_range(&v, t2 + 1, hi);
                proof {
                    let rest = v@.subrange(t1 + 1, hi as int);
                    assert(line.take(t1 - lo) =~= v@.subrange(lo as int, t1 as int));
                    assert(rest.take(t2 - t1 - 1) =~= v@.subrange(t1 + 1, t2 as int));
                    assert(rest.skip(t2 - t1) =~= v@.subrange(t2 + 1, hi as int));
                }
                if a1 > a0 {
                    let pane = TmuxPane {
                        session_name: string_of(&v, a0, a1),
                        current_path: string_of(&v, b0, b1),
                        current_command: string_of(&v, c0, c1),
                    };
                    let ghost before = out@;
                    let ghost pv = pane@;
                    out.push(pane);
                    assert(pane_views(out@) =~= pane_views(before).push(pv));
                }
            }
        }
        i = i + 1;
    }
    assert(ls.take(rs@.len() as int) =~= ls);
    out
}

// ---------------------------------------------------------------------
// Session records
// ---------------------------------------------------------------------

/// Index of the first session of a repo and target, if any.
pub open spec fn session_index(ss: Seq<SessionRecordV>, repo_alias: Seq<char>, target: Seq<char>, i: int) -> int
    decreases ss.len() - i,
{
    if i < 0 || i >= ss.len() {
        ss.len() as int
    } else if ss[i].repo_alias == repo_alias && ss[i].target == target {
        i
    } else {
        session_index(ss, repo_alias, target, i + 1)
    }
}

proof fn lemma_session_index(ss: Seq<SessionRecordV>, a: Seq<char>, t: Seq<char>, i: int)
    requires
        0 <= i <= ss.len(),
    ensures
        i <= session_index(ss, a, t, i) <= ss.len(),
        session_index(ss, a, t, i) < ss.len() ==> ss[session_index(ss, a, t, i)].repo_alias == a
            && ss[session_index(ss, a, t, i)].target == t,
    decreases ss.len() - i,
{
    if i < ss.len() && !(ss[i].repo_alias == a && ss[i].target == t) {
        lemma_session_index(ss, a, t, i + 1);
    }
}

/// The position of the session of a repo and target in the state.
pub fn find_session(state: &State, repo_alias: &str, target: &str) -> (r: Option<usize>)
    ensures
        ({
            let ss = session_views(state.sessions@);
            let j = session_index(ss, repo_alias@, target@, 0);
            if j < ss.len() {
                r == Some(j as usize)
            } else {
                r is None
            }
        }),
        r matches Some(i) ==> i < state.sessions@.len() && i as int == session_index(
            session_views(state.sessions@),
            repo_alias@,
            target@,
            0,
        ),
{
    let ghost ss = session_views(state.sessions@);
    let mut i: usize = 0;
    while i < state.sessions.len()
        invariant
            ss == session_views(state.sessions@),
            i <= state.sessions@.len(),
            session_index(ss, repo_alias@, target@, 0) == session_index(ss, repo_alias@, target@, i as int),
        decreases state.sessions@.len() - i,
    {
        let s = &state.sessions[i];
        assert(ss[i as int] == s@);
        if str_eq(s.repo_alias.as_str(), repo_alias) && str_eq(s.target.as_str(), target) {
            assert(session_index(ss, repo_alias@, target@, i as int) == i);
            return Some(i);
        }
        i = i + 1;
    }
    None
}

/// The sessions after recording a running session for a repo and target:
/// an existing record of that repo and target keeps its place and backend
/// and takes the new path, command and name; otherwise a tmux record is
/// appended.
pub open spec fn spec_upsert_running(
    ss: Seq<SessionRecordV>,
    repo_alias: Seq<char>,
    target: Seq<char>,
    worktree_path: Seq<char>,
    command: Seq<Seq<char>>,
    name: Seq<char>,
) -> Seq<SessionRecordV> {
    let j = session_index(ss, repo_alias, target, 0);
    if j < ss.len() {
        ss.update(
            j,
            SessionRecordV {
                worktree_path,
                command,
                tmux_session_name: name,
                status: SessionStatus::Running,
                ..ss[j]
            },
        )
    } else {
        ss.push(
            SessionRecordV {
                repo_alias,
                target,
                worktree_path,
                backend: SessionBackend::Tmux,
                command,
                tmux_session_name: name,
                status: SessionStatus::Running,
            },
        )
    }
}

/// Records that a managed session is running for a repo and target.
pub fn upsert_running_session(
    state: &mut State,
    repo_alias: String,
    target: String,
    worktree_path: String,
    command: &CommandSpec,
    tmux_session_name: String,
)
    ensures
        session_views(final(state).sessions@) == spec_upsert_running(
            session_views(old(state).sessions@),
            repo_alias@,
            target@,
            worktree_path@,
            command.args(),
            tmux_session_name@,
        ),
        final(state).schema_version == old(state).schema_version,
        final(state).adopted_paths@ == old(state).adopted_paths@,
        final(state).ignored_repos@ == old(state).ignored_repos@,
        final(state).repos@ == old(state).repos@,
{
    let argv = crate::domain::copy_strings(&command.argv);
    assert(session_views(state.sessions@).len() == state.sessions@.len());
    match find_session(state, repo_alias.as_str(), target.as_str()) {
        Some(i) => {
            let old_rec = &state.sessions[i];
            let rec = SessionRecord {
                repo_alias: old_rec.repo_alias.clone(),
                target: old_rec.target.clone(),
                worktree_path,
                backend: old_rec.backend,
                command: argv,
                tmux_session_name,
                status: SessionStatus::Running,
            };
            let ghost before = state.sessions@;
            let ghost rv = rec@;
            assert(session_views(before)[i as int] == before[i as int]@);
            state.sessions.set(i, rec);
            assert(session_views(state.sessions@) =~= session_views(before).update(i as int, rv));
        },
        None => {
            let rec = SessionRecord {
                repo_alias,
                target,
                worktree_path,
                backend: SessionBackend::Tmux,
                command: argv,
                tmux_session_name,
                status: SessionStatus::Running,
            };
            let ghost before = state.sessions@;
            let ghost rv = rec@;
            state.sessions.push(rec);
            assert(session_views(state.sessions@) =~= session_views(before).push(rv));
        },
    }
}

/// Sets the recorded status of the session at `i`.
pub fn set_session_status(state: &mut State, i: usize, status: SessionStatus)
    requires
        i < old(state).sessions@.len(),
    ensures
        session_views(final(state).sessions@) == session_views(old(state).sessions@).update(
            i as int,
            SessionRecordV { status, ..session_views(old(state).sessions@)[i as int] },
        ),
        final(state).schema_version == old(state).schema_version,
        final(state).adopted_paths@ == old(state).adopted_paths@,
        final(state).ignored_repos@ == old(state).ignored_repos@,
        final(state).repos@ == old(state).repos@,
{
    let mut rec = state.sessions[i].duplicate();
    rec.status = status;
    let ghost before = state.sessions@;
    let ghost rv = rec@;
    state.sessions.set(i, rec);
    assert(session_views(before)[i as int] == before[i as int]@);
    assert(session_views(state.sessions@) =~= session_views(before).update(i as int, rv));
}

/// Recording a running session makes it the one found for its repo and
/// target, running the given command under the given name.
pub proof fn lemma_upsert_then_find(
    ss: Seq<SessionRecordV>,
    repo_alias: Seq<char>,
    target: Seq<char>,
    worktree_path: Seq<char>,
    command: Seq<Seq<char>>,
    name: Seq<char>,
)
    ensures
        ({
            let after = spec_upsert_running(ss, repo_alias, target, worktree_path, command, name);
            let j = session_index(after, repo_alias, target, 0);
            &&& j < after.len()
            &&& after[j].status == SessionStatus::Running
            &&& after[j].command == command
            &&& after[j].tmux_session_name == name
            &&& after[j].worktree_path == worktree_path
        }),
{
    let after = spec_upsert_running(ss, repo_alias, target, worktree_path, command, name);
    let j = session_index(ss, repo_alias, target, 0);
    lemma_session_index(ss, repo_alias, target, 0);
    assert forall|k: int| 0 <= k < j implies !(after[k].repo_alias == repo_alias && after[k].target
        == target) by {
        lemma_session_index_skips(ss, repo_alias, target, 0, k);
    }
    lemma_session_index_at(after, repo_alias, target, 0, j);
}

/// No two recorded sessions share a repo and target.
pub open spec fn one_session_per_target(ss: Seq<SessionRecordV>) -> bool {
    forall|i: int, j: int|
        0 <= i < ss.len() && 0 <= j < ss.len() && i != j ==> !((#[trigger] ss[i]).repo_alias == (#[trigger] ss[j]).repo_alias
            && ss[i].target == ss[j].target)
}

/// A target has at most one managed session: recording a running session
/// for a repo and target never adds a second one for them.
pub proof fn lemma_upsert_keeps_one_session_per_target(
    ss: Seq<SessionRecordV>,
    repo_alias: Seq<char>,
    target: Seq<char>,
    worktree_path: Seq<char>,
    command: Seq<Seq<char>>,
    name: Seq<char>,
)
    requires
        one_session_per_target(ss),
    ensures
        one_session_per_target(spec_upsert_running(ss, repo_alias, target, worktree_path, command, name)),
{
    let after = spec_upsert_running(ss, repo_alias, target, worktree_path, command, name);
    let j = session_index(ss, repo_alias, target, 0);
    lemma_session_index(ss, repo_alias, target, 0);
    if j < ss.len() {
        assert forall|x: int, y: int|
            0 <= x < after.len() && 0 <= y < after.len() && x != y implies !((#[trigger] after[x]).repo_alias
            == (#[trigger] after[y]).repo_alias && after[x].target == after[y].target) by {
            assert(after[x].repo_alias == ss[x].repo_alias && after[x].target == ss[x].target);
            assert(after[y].repo_alias == ss[y].repo_alias && after[y].target == ss[y].target);
        }
    } else {
        assert forall|k: int| 0 <= k < ss.len() implies !(ss[k].repo_alias == repo_alias && ss[k].target == target) by {
            lemma_session_index_skips(ss, repo_alias, target, 0, k);
        }
        assert forall|x: int, y: int|
            0 <= x < after.len() && 0 <= y < after.len() && x != y implies !((#[trigger] after[x]).repo_alias
            == (#[trigger] after[y]).repo_alias && after[x].target == after[y].target) by {
            if x < ss.len() && y < ss.len() {
                assert(after[x] == ss[x] && after[y] == ss[y]);
            } else if x < ss.len() {
                assert(after[x] == ss[x]);
                assert(after[y].repo_alias == repo_alias && after[y].target == target);
            } else {
                assert(after[y] == ss[y]);
                assert(after[x].repo_alias == repo_alias && after[x].target == target);
            }
        }
    }
}

proof fn lemma_session_index_skips(ss: Seq<SessionRecordV>, a: Seq<char>, t: Seq<char>, i: int, k: int)
    requires
        0 <= i <= k < session_index(ss, a, t, i),
    ensures
        !(ss[k].repo_alias == a && ss[k].target == t),
    decreases ss.len() - i,
{
    if i < k {
        lemma_session_index_skips(ss, a, t, i + 1, k);
    }
}

proof fn lemma_session_index_at(ss: Seq<SessionRecordV>, a: Seq<char>, t: Seq<char>, i: int, j: int)
    requires
        0 <= i <= j < ss.len(),
        ss[j].repo_alias == a && ss[j].target == t,
        forall|k: int| i <= k < j ==> !(ss[k].repo_alias == a && ss[k].target == t),
    ensures
        session_index(ss, a, t, i) == j,
    decreases j - i,
{
    if i < j {
        lemma_session_index_at(ss, a, t, i + 1, j);
    }
}


/// The recorded session of a repo and target, to change in place.
pub fn find_session_mut<'a>(state: &'a mut State, repo_alias: &str, target: &str) -> (r: Option<&'a mut SessionRecord>)
    ensures
        ({
            let j = session_index(session_views(old(state).sessions@), repo_alias@, target@, 0);
            match r {
                Some(s) => {
                    &&& j < old(state).sessions@.len()
                    &&& *s == old(state).sessions@[j]
                    &&& final(state).sessions@ == old(state).sessions@.update(j, *final(s))
                    &&& final(state).schema_version == old(state).schema_version
                    &&& final(state).adopted_paths@ == old(state).adopted_paths@
                    &&& final(state).ignored_repos@ == old(state).ignored_repos@
                    &&& final(state).repos@ == old(state).repos@
                },
                None => j >= old(state).sessions@.len() && *final(state) == *old(state),
            }
        }),
{
    match find_session(state, repo_alias, target) {
        Some(i) => Some(&mut state.sessions[i]),
        None => None,
    }
}


/// What to do when asked to run a command in a worktree's tmux session.
#[derive(Debug, PartialEq, Eq)]
pub enum PairPlan {
    /// The session runs: attach to it, after printing the warning if any.
    Attach { warning: Option<String> },
    /// No session runs: create one, record it as running, and attach.
    Create,
}

pub open spec fn pair_warning(name: Seq<char>, recorded: Seq<Seq<char>>) -> Seq<char> {
    "warning: existing Workroot session `"@ + name + "` was started with `"@ + join(
        recorded.map_values(|a: Seq<char>| spec_posix_quote(a)),
        seq![' '],
    ) + "`; attaching instead of replacing it"@
}

fn same_args(a: &Vec<String>, b: &[String]) -> (r: bool)
    ensures
        r == (views(a@) == views(b@)),
{
    if a.len() != b.len() {
        assert(views(a@).len() != views(b@).len());
        return false;
    }
    let mut i: usize = 0;
    while i < a.len()
        invariant
            a@.len() == b@.len(),
            i <= a@.len(),
            forall|j: int| 0 <= j < i ==> a@[j]@ == b@[j]@,
        decreases a@.len() - i,
    {
        if !crate::text::str_eq(a[i].as_str(), b[i].as_str()) {
            assert(views(a@)[i as int] != views(b@)[i as int]);
            return false;
        }
        i = i + 1;
    }
    assert(views(a@) =~= views(b@));
    true
}

/// Decides a run in a worktree given whether its tmux session exists: a
/// running session must be one Workroot recorded for the repo and target;
/// it is marked running and attached to, with a warning when it was
/// started with another command.  Otherwise a recorded session is marked
/// exited and a new one is created.
pub fn plan_pair(
    state: &mut State,
    repo_alias: &str,
    target: &str,
    command: &CommandSpec,
    session_name: &str,
    existing: ExistingSession,
) -> (r: AppResult<PairPlan>)
    ensures
        ({
            let ss = session_views(old(state).sessions@);
            let j = session_index(ss, repo_alias@, target@, 0);
            let found = j < ss.len();
            &&& final(state).schema_version == old(state).schema_version
            &&& final(state).adopted_paths@ == old(state).adopted_paths@
            &&& final(state).ignored_repos@ == old(state).ignored_repos@
            &&& final(state).repos@ == old(state).repos@
            &&& match existing {
                ExistingSession::Running => if !found {
                    &&& r matches Err(AppError::ManagedSessionNotFound { repo, target: t })
                    &&& repo@ == repo_alias@ && t@ == target@
                    &&& session_views(final(state).sessions@) == ss
                } else if ss[j].command != command.args() && ss[j].command.len() == 0 {
                    &&& r matches Err(AppError::InvalidCommand(m)) && m@ == "expected command after `--`"@
                    &&& session_views(final(state).sessions@) == ss
                } else {
                    &&& session_views(final(state).sessions@) == ss.update(
                        j,
                        SessionRecordV { status: SessionStatus::Running, ..ss[j] },
                    )
                    &&& r matches Ok(PairPlan::Attach { warning }) && if ss[j].command == command.args() {
                        warning is None
                    } else {
                        warning matches Some(w) && w@ == pair_warning(session_name@, ss[j].command)
                    }
                },
                ExistingSession::Missing => {
                    &&& r matches Ok(PairPlan::Create)
                    &&& session_views(final(state).sessions@) == if found {
                        ss.update(j, SessionRecordV { status: SessionStatus::Exited, ..ss[j] })
                    } else {
                        ss
                    }
                },
            }
        }),
{
    match existing {
        ExistingSession::Running => {
            let i = match find_session(state, repo_alias, target) {
                Some(i) => i,
                None => {
                    return Err(AppError::ManagedSessionNotFound { repo: repo_alias.to_owned(), target: target.to_owned() });
                },
            };
            assert(session_views(state.sessions@)[i as int] == state.sessions@[i as int]@);
            let same = same_args(&state.sessions[i].command, command.argv());
            let warning = if same {
                None
            } else {
                let recorded = match CommandSpec::new(crate::domain::copy_strings(&state.sessions[i].command)) {
                    Ok(c) => c,
                    Err(e) => return Err(e),
                };
                let mut w = "warning: existing Workroot session `".to_owned();
                w.append(session_name);
                w.append("` was started with `");
                let posix = recorded.to_posix_shell_command();
                w.append(posix.as_str());
                w.append("`; attaching instead of replacing it");
                Some(w)
            };
            set_session_status(state, i, SessionStatus::Running);
            Ok(PairPlan::Attach { warning })
        },
        ExistingSession::Missing => {
            match find_session(state, repo_alias, target) {
                Some(i) => set_session_status(state, i, SessionStatus::Exited),
                None => {},
            }
            Ok(PairPlan::Create)
        },
    }
}

/// Settles an attach to the recorded session at `i`, given whether its
/// tmux session exists: a running one is marked running (then attached
/// to); a missing one is marked exited and reported missing.
pub fn settle_attach(state: &mut State, i: usize, repo_alias: &str, target: &str, existing: ExistingSession) -> (r: AppResult<()>)
    requires
        i < old(state).sessions@.len(),
    ensures
        session_views(final(state).sessions@) == session_views(old(state).sessions@).update(
            i as int,
            SessionRecordV {
                status: match existing {
                    ExistingSession::Running => SessionStatus::Running,
                    ExistingSession::Missing => SessionStatus::Exited,
                },
                ..session_views(old(state).sessions@)[i as int]
            },
        ),
        final(state).schema_version == old(state).schema_version,
        final(state).adopted_paths@ == old(state).adopted_paths@,
        final(state).ignored_repos@ == old(state).ignored_repos@,
        final(state).repos@ == old(state).repos@,
        match existing {
            ExistingSession::Running => r is Ok,
            ExistingSession::Missing => r matches Err(AppError::ManagedSessionNotFound { repo, target: t }) && repo@
                == repo_alias@ && t@ == target@,
        },
{
    match existing {
        ExistingSession::Running => {
            set_session_status(state, i, SessionStatus::Running);
            Ok(())
        },
        ExistingSession::Missing => {
            set_session_status(state, i, SessionStatus::Exited);
            Err(AppError::ManagedSessionNotFound { repo: repo_alias.to_owned(), target: target.to_owned() })
        },
    }
}


/// The arguments of the tmux call that starts a managed session: detached,
/// named `session_name`, in `cwd`, running the command through the shell.
pub fn new_session_args(session_name: &str, cwd: &str, command: &CommandSpec) -> (r: Vec<String>)
    ensures
        views(r@) == seq![
            "new-session"@,
            "-d"@,
            "-s"@,
            session_name@,
            "-c"@,
            cwd@,
            join(command.args().map_values(|a: Seq<char>| spec_posix_quote(a)), seq![' ']),
        ],
{
    let mut r: Vec<String> = Vec::new();
    r.push("new-session".to_owned());
    r.push("-d".to_owned());
    r.push("-s".to_owned());
    r.push(session_name.to_owned());
    r.push("-c".to_owned());
    r.push(cwd.to_owned());
    r.push(command.to_posix_shell_command());
    assert(views(r@) =~= seq![
        "new-session"@,
        "-d"@,
        "-s"@,
        session_name@,
        "-c"@,
        cwd@,
        join(command.args().map_values(|a: Seq<char>| spec_posix_quote(a)), seq![' ']),
    ]);
    r
}

/// The arguments of the tmux call that adds the shell pane beside it.
pub fn split_window_args(session_name: &str, cwd: &str) -> (r: Vec<String>)
    ensures
        views(r@) == seq!["split-window"@, "-h"@, "-t"@, session_name@, "-c"@, cwd@],
{
    let mut r: Vec<String> = Vec::new();
    r.push("split-window".to_owned());
    r.push("-h".to_owned());
    r.push("-t".to_owned());
    r.push(session_name.to_owned());
    r.push("-c".to_owned());
    r.push(cwd.to_owned());
    assert(views(r@) =~= seq!["split-window"@, "-h"@, "-t"@, session_name@, "-c"@, cwd@]);
    r
}

} // verus!
