//! Texts the BBS sends over the radio: the extended help split into frames,
//! the login banner, the unread-messages line and weather reports.
use vstd::prelude::*;
use crate::text::{to_owned_string, push_str, push_char, trim, trim_spec, write_decimal, decimal_spec, utf8_len,
    char_width, char_utf8_width, lemma_utf8_len_take_step, lemma_char_width_bounds, string_views, byte_len};
use crate::ui::{utf8_prefix, utf8_fit_count};

verus! {

/// Largest text that fits one radio frame (bytes).
pub const FRAME_TEXT_MAX: usize = 230;

/// The extended help text.
pub const VERBOSE_HELP: &'static str = "MeshBBS Extended Help\nAuthentication:\n  REGISTER <name> <pass>  Create account\n  LOGIN <name> <pass>     Log in\n  SETPASS <new>           Set first password\n  CHPASS <old> <new>      Change password\n  LOGOUT                  End session\n\nMessages & Areas:\n  AREAS / LIST            List areas\n  READ <area>             Read recent messages\n  POST <area> <text>      Post inline\n  POST then multiline '.' End with '.' line\n  DELETE <area> <id>      (mod) Delete message\n  LOCK/UNLOCK <area>      (mod) Lock area\n\nNavigation Shortcuts:\n  M   Message areas menu\n  U   User menu\n  Q   Quit\n  B   Back to previous menu\n\nUser Info / Admin:\n  PROMOTE <user>          (sysop) Raise to moderator\n  DEMOTE <user>           (sysop) Lower to base user\n  DELLOG [page]           (mod) Deletion log\n  ADMINLOG [page]         (mod) Admin audit log\n  USERS [pattern]         (mod) List users, optional search\n  WHO                     (mod) Show logged in users\n  USERINFO <user>         (mod) Detailed user info\n  SESSIONS                (mod) List all sessions\n  KICK <user>             (mod) Force logout user\n  BROADCAST <msg>         (mod) Message all users\n  ADMIN/DASHBOARD         (mod) System overview\n\nMisc:\n  HELP        Compact help\n  HELP+ / HELP V  Verbose help (this)\n  Weather (public)  Send WEATHER on public channel\n\nLimits:\n  Max frame ~230 bytes; verbose help auto-splits.\n";

/// `cur` without one trailing carriage return.
pub open spec fn strip_cr(cur: Seq<char>) -> Seq<char> {
    if cur.len() > 0 && cur.last() == '\r' { cur.drop_last() } else { cur }
}

/// The lines of `s[i..]` (`str::lines`), given the line `cur` being read and
/// the lines `acc` read before: a line ends at `\n`, and a `\r` just before
/// that `\n` is dropped; a final line needs no `\n`.
pub open spec fn lines_acc(s: Seq<char>, i: int, cur: Seq<char>, acc: Seq<Seq<char>>) -> Seq<Seq<char>>
    decreases s.len() - i,
{
    if i < 0 || i >= s.len() {
        if cur.len() > 0 { acc.push(cur) } else { acc }
    } else if s[i] == '\n' {
        lines_acc(s, i + 1, Seq::empty(), acc.push(strip_cr(cur)))
    } else {
        lines_acc(s, i + 1, cur.push(s[i]), acc)
    }
}

/// The lines of `s` (`str::lines`).
pub open spec fn lines_spec(s: Seq<char>) -> Seq<Seq<char>> {
    lines_acc(s, 0, Seq::empty(), Seq::empty())
}

/// `str::lines`, collected.
pub fn split_lines(s: &str) -> (r: Vec<String>)
    ensures
        string_views(r@) == lines_spec(s@),
{
    let n = s.unicode_len();
    let mut out: Vec<String> = Vec::new();
    let mut cur = String::new();
    let mut i: usize = 0;
    assert(string_views(out@) =~= Seq::<Seq<char>>::empty());
    while i < n
        invariant
            i <= n,
            n == s@.len(),
            lines_spec(s@) == lines_acc(s@, i as int, cur@, string_views(out@)),
        decreases n - i,
    {
        let c = s.get_char(i);
        let ghost acc0 = string_views(out@);
        let ghost cur0 = cur@;
        assert(lines_acc(s@, i as int, cur0, acc0) == if c == '\n' {
            lines_acc(s@, i + 1, Seq::empty(), acc0.push(strip_cr(cur0)))
        } else {
            lines_acc(s@, i + 1, cur0.push(c), acc0)
        });
        if c == '\n' {
            let m = cur.as_str().unicode_len();
            let line = if m > 0 && cur.as_str().get_char(m - 1) == '\r' {
                let l = to_owned_string(cur.as_str().substring_char(0, m - 1));
                assert(l@ =~= cur0.drop_last());
                l
            } else {
                cur
            };
            let ghost before = out@;
            out.push(line);
            assert(string_views(out@) =~= string_views(before).push(strip_cr(cur0)));
            cur = String::new();
        } else {
            push_char(&mut cur, c);
        }
        i = i + 1;
    }
    if cur.as_str().unicode_len() > 0 {
        let ghost before = out@;
        let ghost cur0 = cur@;
        out.push(cur);
        assert(string_views(out@) =~= string_views(before).push(cur0));
    }
    out
}

/// Lines packed into frames of at most `max` bytes, each line followed by
/// `\n`: a line opens a new frame when the current one is not empty and the
/// line would not fit in it; `cur` is the frame being filled and `acc` the
/// frames done.
pub open spec fn pack_acc(lines: Seq<Seq<char>>, i: int, cur: Seq<char>, acc: Seq<Seq<char>>, max: nat) -> Seq<Seq<char>>
    decreases lines.len() - i,
{
    if i < 0 || i >= lines.len() {
        if cur.len() > 0 { acc.push(cur) } else { acc }
    } else {
        let line = lines[i];
        if utf8_len(cur) + utf8_len(line) + 1 > max && cur.len() > 0 {
            pack_acc(lines, i + 1, line.push('\n'), acc.push(cur), max)
        } else {
            pack_acc(lines, i + 1, cur + line.push('\n'), acc, max)
        }
    }
}

/// The frames that [`pack_lines`] makes of `lines`.
pub open spec fn pack_spec(lines: Seq<Seq<char>>, max: nat) -> Seq<Seq<char>> {
    pack_acc(lines, 0, Seq::empty(), Seq::empty(), max)
}

proof fn lemma_utf8_len_push(s: Seq<char>, c: char)
    ensures
        utf8_len(s.push(c)) == utf8_len(s) + char_width(c),
{
    crate::text::lemma_encode_utf8_push(s, c);
}

proof fn lemma_utf8_len_concat(a: Seq<char>, b: Seq<char>)
    ensures
        utf8_len(a + b) == utf8_len(a) + utf8_len(b),
    decreases b.len(),
{
    if b.len() == 0 {
        assert(a + b =~= a);
        assert(vstd::utf8::encode_utf8(Seq::<char>::empty()) =~= Seq::<u8>::empty());
    } else {
        lemma_utf8_len_concat(a, b.drop_last());
        assert(a + b =~= (a + b.drop_last()).push(b.last()));
        assert(b =~= b.drop_last().push(b.last()));
        lemma_utf8_len_push(a + b.drop_last(), b.last());
        lemma_utf8_len_push(b.drop_last(), b.last());
    }
}

/// Packs lines into frames of at most `max` bytes (see [`pack_spec`]).
pub fn pack_lines(lines: &Vec<String>, max: usize) -> (r: Vec<String>)
    ensures
        string_views(r@) == pack_spec(string_views(lines@), max as nat),
{
    let n = lines.len();
    let ghost ls = string_views(lines@);
    let mut out: Vec<String> = Vec::new();
    let mut cur = String::new();
    let mut i: usize = 0;
    assert(string_views(out@) =~= Seq::<Seq<char>>::empty());
    while i < n
        invariant
            i <= n,
            n == lines@.len(),
            ls == string_views(lines@),
            pack_spec(ls, max as nat) == pack_acc(ls, i as int, cur@, string_views(out@), max as nat),
        decreases n - i,
    {
        let line = lines[i].as_str();
        assert(ls[i as int] == line@);
        let cl = byte_len(cur.as_str());
        let ll = byte_len(line);
        let fits = (cl as u128) + (ll as u128) + 1 <= max as u128;
        if !fits && cur.as_str().unicode_len() > 0 {
            let ghost before = out@;
            let ghost cur0 = cur@;
            out.push(cur);
            assert(string_views(out@) =~= string_views(before).push(cur0));
            cur = to_owned_string(line);
            push_char(&mut cur, '\n');
        } else {
            let ghost cur0 = cur@;
            push_str(&mut cur, line);
            push_char(&mut cur, '\n');
            assert(cur@ =~= cur0 + line@.push('\n'));
        }
        i = i + 1;
    }
    if cur.as_str().unicode_len() > 0 {
        let ghost before = out@;
        let ghost cur0 = cur@;
        out.push(cur);
        assert(string_views(out@) =~= string_views(before).push(cur0));
    }
    out
}

/// The extended help, split into frames of at most 230 bytes by whole lines.
pub fn chunk_verbose_help() -> (r: Vec<String>)
    ensures
        string_views(r@) == pack_spec(lines_spec(VERBOSE_HELP@), FRAME_TEXT_MAX as nat),
{
    let lines = split_lines(VERBOSE_HELP);
    pack_lines(&lines, FRAME_TEXT_MAX)
}

/// All sequences joined end to end.
pub open spec fn flatten(s: Seq<Seq<char>>) -> Seq<char>
    decreases s.len(),
{
    if s.len() == 0 {
        Seq::empty()
    } else {
        flatten(s.drop_last()) + s.last()
    }
}

/// Each line followed by a newline, joined.
pub open spec fn newline_joined(lines: Seq<Seq<char>>) -> Seq<char>
    decreases lines.len(),
{
    if lines.len() == 0 {
        Seq::empty()
    } else {
        newline_joined(lines.drop_last()) + lines.last().push('\n')
    }
}

proof fn lemma_pack_acc(lines: Seq<Seq<char>>, i: int, cur: Seq<char>, acc: Seq<Seq<char>>, max: nat)
    requires
        0 <= i <= lines.len(),
        flatten(acc) + cur == newline_joined(lines.take(i)),
        forall|k: int| 0 <= k < acc.len() ==> #[trigger] acc[k].len() > 0,
    ensures
        flatten(pack_acc(lines, i, cur, acc, max)) == newline_joined(lines),
        forall|k: int| 0 <= k < pack_acc(lines, i, cur, acc, max).len() ==> #[trigger] pack_acc(lines, i, cur, acc, max)[k].len() > 0,
    decreases lines.len() - i,
{
    if i >= lines.len() {
        assert(lines.take(i) =~= lines);
        if cur.len() > 0 {
            assert(acc.push(cur).drop_last() =~= acc);
        } else {
            assert(flatten(acc) + cur =~= flatten(acc));
        }
    } else {
        let line = lines[i];
        assert(lines.take(i + 1).drop_last() =~= lines.take(i));
        assert(lines.take(i + 1).last() == line);
        if utf8_len(cur) + utf8_len(line) + 1 > max && cur.len() > 0 {
            assert(acc.push(cur).drop_last() =~= acc);
            assert(flatten(acc.push(cur)) + line.push('\n') =~= flatten(acc) + cur + line.push('\n'));
            lemma_pack_acc(lines, i + 1, line.push('\n'), acc.push(cur), max);
        } else {
            assert(flatten(acc) + (cur + line.push('\n')) =~= flatten(acc) + cur + line.push('\n'));
            lemma_pack_acc(lines, i + 1, cur + line.push('\n'), acc, max);
        }
    }
}

/// Packing loses and adds nothing: the frames joined are the lines, each
/// followed by a newline; and no frame is empty.
pub proof fn lemma_pack_keeps_text(lines: Seq<Seq<char>>, max: nat)
    ensures
        flatten(pack_spec(lines, max)) == newline_joined(lines),
        forall|k: int| 0 <= k < pack_spec(lines, max).len() ==> #[trigger] pack_spec(lines, max)[k].len() > 0,
{
    assert(lines.take(0) =~= Seq::<Seq<char>>::empty());
    assert(flatten(Seq::<Seq<char>>::empty()) + Seq::<char>::empty() =~= Seq::<char>::empty());
    lemma_pack_acc(lines, 0, Seq::empty(), Seq::empty(), max);
}

/// The unread-messages line shown after login.
pub open spec fn unread_line_spec(unread: u32) -> Seq<char> {
    if unread == 0 {
        "There are no new messages.\n"@
    } else if unread == 1 {
        "1 new message since your last login.\n"@
    } else {
        decimal_spec(unread as nat) + " new messages since your last login.\n"@
    }
}

/// The unread-messages line: none, one, or `n` new messages.
pub fn format_unread_line(unread: u32) -> (r: String)
    ensures
        r@ == unread_line_spec(unread),
{
    if unread == 0 {
        to_owned_string("There are no new messages.\n")
    } else if unread == 1 {
        to_owned_string("1 new message since your last login.\n")
    } else {
        let mut s = String::new();
        write_decimal(&mut s, unread as u64);
        push_str(&mut s, " new messages since your last login.\n");
        s
    }
}

/// `s` cut to its first `max` bytes, where a character cut in two becomes
/// one replacement character (`String::from_utf8_lossy` of the bytes).
pub open spec fn cut_bytes(s: Seq<char>, max: nat) -> Seq<char> {
    if utf8_len(s) <= max {
        s
    } else {
        let p = s.take(utf8_fit_count(s, max) as int);
        if utf8_len(p) < max { p.push('\u{FFFD}') } else { p }
    }
}

/// The login banner: the welcome message and the description on two lines,
/// cut to 230 bytes, ending with a newline.
pub open spec fn banner_spec(welcome: Seq<char>, description: Seq<char>) -> Seq<char> {
    let b = cut_bytes(welcome + seq!['\n'] + description, FRAME_TEXT_MAX as nat);
    if b.len() > 0 && b.last() == '\n' { b } else { b.push('\n') }
}

/// The login banner (see [`banner_spec`]).
pub fn build_banner(welcome_message: &str, description: &str) -> (r: String)
    ensures
        r@ == banner_spec(welcome_message@, description@),
{
    let mut full = to_owned_string(welcome_message);
    push_char(&mut full, '\n');
    push_str(&mut full, description);
    assert(full@ =~= welcome_message@ + seq!['\n'] + description@);
    let total = byte_len(full.as_str());
    let mut b = if total <= FRAME_TEXT_MAX {
        full
    } else {
        let p = utf8_prefix(full.as_str(), FRAME_TEXT_MAX);
        let pl = byte_len(p.as_str());
        if pl < FRAME_TEXT_MAX {
            let mut q = p;
            push_char(&mut q, '\u{FFFD}');
            q
        } else {
            p
        }
    };
    let n = b.as_str().unicode_len();
    if !(n > 0 && b.as_str().get_char(n - 1) == '\n') {
        push_char(&mut b, '\n');
    }
    b
}

/// The login banner, followed by the unread-messages line (see
/// [`unread_line_spec`]) when there are any.
pub fn prepare_login_banner(welcome_message: &str, description: &str, unread: u32) -> (r: String)
    ensures
        r@ == banner_spec(welcome_message@, description@) + if unread > 0 {
            unread_line_spec(unread)
        } else {
            Seq::<char>::empty()
        },
{
    let mut b = build_banner(welcome_message, description);
    if unread > 0 {
        let line = format_unread_line(unread);
        push_str(&mut b, line.as_str());
    }
    b
}

/// The banner texts of the board and the last login banner it showed.
#[derive(Debug)]
pub struct BannerState {
    pub welcome_message: String,
    pub description: String,
    /// The last banner shown, without its unread-messages line.
    pub last_banner: Option<String>,
}

impl BannerState {
    /// A board with these texts that has shown no banner yet.
    pub fn new(welcome_message: String, description: String) -> (s: Self)
        ensures
            s.welcome_message == welcome_message,
            s.description == description,
            s.last_banner is None,
    {
        BannerState { welcome_message, description, last_banner: None }
    }

    /// The login banner followed by the unread-messages line (as
    /// [`prepare_login_banner`]); the banner without that line is kept as
    /// the last banner shown.
    pub fn prepare_login_banner(&mut self, unread: u32) -> (r: String)
        ensures
            r@ == banner_spec(old(self).welcome_message@, old(self).description@) + if unread > 0 {
                unread_line_spec(unread)
            } else {
                Seq::<char>::empty()
            },
            final(self).welcome_message == old(self).welcome_message,
            final(self).description == old(self).description,
            final(self).last_banner matches Some(b)
                && b@ == banner_spec(old(self).welcome_message@, old(self).description@),
    {
        let b = build_banner(self.welcome_message.as_str(), self.description.as_str());
        let mut r = b.clone();
        if unread > 0 {
            let line = format_unread_line(unread);
            push_str(&mut r, line.as_str());
        }
        self.last_banner = Some(b);
        r
    }

    /// The last banner shown, if any.
    pub fn last_banner(&self) -> (r: Option<&String>)
        ensures
            match r {
                Some(b) => self.last_banner matches Some(x) && b@ == x@,
                None => self.last_banner is None,
            },
    {
        match &self.last_banner {
            Some(b) => Some(b),
            None => None,
        }
    }
}

/// Whether a character survives in a weather report: printable ASCII.
pub open spec fn weather_char_kept(c: char) -> bool {
    (c as u32) < 0x80 && (c as u32) >= 0x20 && c != '\x7F'
}

/// The printable ASCII characters of the first line of `s[i..]`, after `acc`.
pub open spec fn weather_keep(s: Seq<char>, i: int, acc: Seq<char>) -> Seq<char>
    decreases s.len() - i,
{
    if i < 0 || i >= s.len() || s[i] == '\n' {
        acc
    } else if weather_char_kept(s[i]) {
        weather_keep(s, i + 1, acc.push(s[i]))
    } else {
        weather_keep(s, i + 1, acc)
    }
}

/// A weather report as broadcast: the printable ASCII of the first line,
/// trimmed, after "Weather: "; or "Weather unavailable" when nothing is left.
pub open spec fn weather_report(raw: Seq<char>) -> Seq<char> {
    let t = trim_spec(weather_keep(raw, 0, Seq::empty()));
    if t.len() == 0 { "Weather unavailable"@ } else { "Weather: "@ + t }
}

/// Cleans a weather service's answer for broadcast (see [`weather_report`]).
pub fn sanitize_weather(raw: &str) -> (r: String)
    ensures
        r@ == weather_report(raw@),
{
    let n = raw.unicode_len();
    let mut out = String::new();
    let mut i: usize = 0;
    while i < n
        invariant
            i <= n,
            n == raw@.len(),
            weather_keep(raw@, 0, Seq::empty()) == weather_keep(raw@, i as int, out@),
        ensures
            weather_keep(raw@, 0, Seq::empty()) == out@,
        decreases n - i,
    {
        let c = raw.get_char(i);
        if c == '\n' {
            break;
        }
        let v = c as u32;
        if v < 0x80 && v >= 0x20 && c != '\x7F' {
            push_char(&mut out, c);
        }
        i = i + 1;
    }
    let t = trim(out.as_str());
    if t.unicode_len() == 0 {
        to_owned_string("Weather unavailable")
    } else {
        let mut s = to_owned_string("Weather: ");
        push_str(&mut s, t);
        s
    }
}

} // verus!
