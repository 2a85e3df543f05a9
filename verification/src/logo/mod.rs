//! ASCII logos and the logic that picks one for the running system.
pub mod art;

use vstd::prelude::*;
use vstd::string::*;

use crate::text::{
    ascii_lower, blank, case_variant_of, chars_of, contains, contains_chars, has_no_upper, is_blank,
    join, law_ascii_lower_folds_case, lower_equals, max_width, occurs_at,
};

verus! {

/// The index of the first `'\n'` in `s` at or after `i`, or `s.len()`.
pub open spec fn line_end(s: Seq<char>, i: nat) -> nat
    decreases s.len() - i,
{
    if i >= s.len() || s[i as int] == '\n' {
        i
    } else {
        line_end(s, i + 1)
    }
}

pub proof fn lemma_line_end_bounds(s: Seq<char>, i: nat)
    ensures
        i <= s.len() ==> i <= line_end(s, i) <= s.len(),
        i > s.len() ==> line_end(s, i) == i,
        line_end(s, i) < s.len() ==> s[line_end(s, i) as int] == '\n',
    decreases s.len() - i,
{
    if i < s.len() && s[i as int] != '\n' {
        lemma_line_end_bounds(s, i + 1);
    }
}

/// A line with one trailing carriage return removed, if present.
pub open spec fn strip_cr(line: Seq<char>) -> Seq<char> {
    if line.len() > 0 && line.last() == '\r' {
        line.drop_last()
    } else {
        line
    }
}

/// The lines of `s` from position `start` on, as `str::lines` yields them:
/// split at `'\n'`, a `'\r'` just before a `'\n'` removed, and no empty
/// line after a final `'\n'`.
pub open spec fn lines_from(s: Seq<char>, start: nat) -> Seq<Seq<char>>
    decreases s.len() - start,
{
    if start >= s.len() {
        Seq::empty()
    } else {
        let e = line_end(s, start);
        proof {
            lemma_line_end_bounds(s, start);
        }
        if e >= s.len() {
            seq![s.subrange(start as int, s.len() as int)]
        } else {
            seq![strip_cr(s.subrange(start as int, e as int))] + lines_from(s, e + 1)
        }
    }
}

/// No `'\n'` lies between `i` and the end of its line.
proof fn lemma_line_end_no_newline(s: Seq<char>, i: nat)
    ensures
        forall|j: int| i <= j < line_end(s, i) ==> s[j] != '\n',
    decreases s.len() - i,
{
    if i < s.len() && s[i as int] != '\n' {
        lemma_line_end_no_newline(s, i + 1);
    }
}

/// What follows the lines from `start` when joined: the final `'\n'`, if the
/// text ends with one past `start`.
spec fn final_break(s: Seq<char>, start: nat) -> Seq<char> {
    if start < s.len() && s.last() == '\n' { seq!['\n'] } else { Seq::empty() }
}

proof fn lemma_lines_from_rejoin(s: Seq<char>, start: nat)
    requires
        start <= s.len(),
        forall|i: int| 0 <= i < s.len() ==> s[i] != '\r',
    ensures
        forall|k: int| 0 <= k < lines_from(s, start).len() ==> !(#[trigger] lines_from(s, start)[k]).contains('\n'),
        join(lines_from(s, start), seq!['\n']) + final_break(s, start) == s.subrange(start as int, s.len() as int),
        (lines_from(s, start).len() == 0) == (start == s.len()),
    decreases s.len() - start,
{
    if start < s.len() {
        let e = line_end(s, start);
        lemma_line_end_bounds(s, start);
        lemma_line_end_no_newline(s, start);
        let line = s.subrange(start as int, e as int);
        assert forall|j: int| 0 <= j < line.len() implies line[j] != '\n' by {
            assert(line[j] == s[start + j]);
        }
        assert(!line.contains('\n'));
        if e >= s.len() {
            assert(s.last() == s[s.len() - 1]);
            assert(s.last() != '\n');
            assert(lines_from(s, start) == seq![line]);
            assert(join(seq![line], seq!['\n']) == line);
            assert(join(lines_from(s, start), seq!['\n']) + final_break(s, start) =~= s.subrange(start as int, s.len() as int));
        } else {
            if line.len() > 0 {
                assert(line.last() == s[e - 1]);
            }
            assert(strip_cr(line) == line);
            lemma_lines_from_rejoin(s, e + 1);
            let rest = lines_from(s, e + 1);
            let all = seq![line] + rest;
            assert(lines_from(s, start) == all);
            assert forall|k: int| 0 <= k < all.len() implies !(#[trigger] all[k]).contains('\n') by {
                if k > 0 {
                    assert(all[k] == rest[k - 1]);
                }
            }
            if rest.len() == 0 {
                assert(e + 1 == s.len());
                assert(s.last() == s[e as int]);
                assert(join(all, seq!['\n']) == line) by {
                    assert(all =~= seq![line]);
                }
                assert(join(all, seq!['\n']) + final_break(s, start) =~= s.subrange(start as int, s.len() as int));
            } else {
                assert(all.drop_first() =~= rest);
                assert(join(all, seq!['\n']) == line + seq!['\n'] + join(rest, seq!['\n']));
                assert(final_break(s, start) == final_break(s, e + 1));
                let jr = join(rest, seq!['\n']);
                let fb = final_break(s, start);
                assert(jr + fb == s.subrange((e + 1) as int, s.len() as int));
                assert(s.subrange(start as int, s.len() as int) =~= line + seq!['\n'] + s.subrange((e + 1) as int, s.len() as int));
                assert(line + seq!['\n'] + jr + fb =~= line + seq!['\n'] + (jr + fb));
                assert(join(all, seq!['\n']) + final_break(s, start) =~= s.subrange(start as int, s.len() as int));
            }
        }
    }
}

/// Splitting into lines loses nothing but the line breaks: for a text with no
/// carriage return, no line holds a `'\n'`, and joining the lines with `'\n'`
/// (plus a final `'\n'` when the text ends with one) gives back the text.
pub proof fn law_lines_rejoin(s: Seq<char>)
    requires
        forall|i: int| 0 <= i < s.len() ==> s[i] != '\r',
    ensures
        forall|k: int| 0 <= k < text_lines(s).len() ==> !(#[trigger] text_lines(s)[k]).contains('\n'),
        join(text_lines(s), seq!['\n']) + (if s.len() > 0 && s.last() == '\n' { seq!['\n'] } else { Seq::<char>::empty() })
            == s,
{
    lemma_lines_from_rejoin(s, 0);
    assert(s.subrange(0, s.len() as int) =~= s);
}

/// The lines of `s`, as `str::lines` yields them.
pub open spec fn text_lines(s: Seq<char>) -> Seq<Seq<char>> {
    lines_from(s, 0)
}

/// `ls` without its leading blank lines.
pub open spec fn drop_leading_blank(ls: Seq<Seq<char>>) -> Seq<Seq<char>>
    decreases ls.len(),
{
    if ls.len() > 0 && is_blank(ls[0]) {
        drop_leading_blank(ls.drop_first())
    } else {
        ls
    }
}

/// `ls` without its trailing blank lines.
pub open spec fn drop_trailing_blank(ls: Seq<Seq<char>>) -> Seq<Seq<char>>
    decreases ls.len(),
{
    if ls.len() > 0 && is_blank(ls.last()) {
        drop_trailing_blank(ls.drop_last())
    } else {
        ls
    }
}

/// The lines of a logo drawn from `art`: its lines, without leading and
/// trailing blank lines.
pub open spec fn art_logo(art: Seq<char>) -> Seq<Seq<char>> {
    drop_trailing_blank(drop_leading_blank(text_lines(art)))
}

/// The text of a list of strings.
pub open spec fn strings_text(v: Seq<String>) -> Seq<Seq<char>> {
    v.map_values(|l: String| l@)
}

/// A parsed ASCII logo: a list of lines with surrounding blank lines trimmed.
#[derive(Debug, Clone, PartialEq, Eq)]
pub struct Logo {
    lines: Vec<String>,
}

impl View for Logo {
    type V = Seq<Seq<char>>;

    closed spec fn view(&self) -> Seq<Seq<char>> {
        strings_text(self.lines@)
    }
}

/// The lines of `art` as strings.
fn split_lines(art: &str) -> (lines: Vec<String>)
    ensures
        strings_text(lines@) == text_lines(art@),
{
    let cs = chars_of(art);
    let n = cs.len();
    let ghost s = art@;
    let mut lines: Vec<String> = Vec::new();
    let mut start: usize = 0;
    let mut k: usize = 0;
    while k < n
        invariant
            cs@ == s,
            s == art@,
            n == s.len(),
            start <= k <= n,
            line_end(s, start as nat) == line_end(s, k as nat),
            strings_text(lines@) + lines_from(s, start as nat) == text_lines(s),
        decreases n - k,
    {
        if cs[k] == '\n' {
            proof {
                lemma_line_end_bounds(s, start as nat);
            }
            let end = if k > start && cs[k - 1] == '\r' { k - 1 } else { k };
            let line = art.substring_char(start, end).to_owned();
            let ghost old_lines = lines@;
            lines.push(line);
            assert(line@ == strip_cr(s.subrange(start as int, k as int)));
            assert(strings_text(lines@) =~= strings_text(old_lines).push(line@));
            assert(lines_from(s, start as nat) == seq![line@] + lines_from(s, (k + 1) as nat));
            assert(strings_text(lines@) + lines_from(s, (k + 1) as nat) =~= strings_text(old_lines) + lines_from(s, start as nat));
            start = k + 1;
        }
        k = k + 1;
    }
    if start < n {
        proof {
            lemma_line_end_bounds(s, start as nat);
        }
        let line = art.substring_char(start, n).to_owned();
        let ghost old_lines = lines@;
        lines.push(line);
        assert(strings_text(lines@) =~= strings_text(old_lines).push(line@));
        assert(strings_text(lines@) =~= strings_text(old_lines) + lines_from(s, start as nat));
    } else {
        assert(strings_text(lines@) =~= strings_text(lines@) + lines_from(s, start as nat));
    }
    lines
}

impl Logo {
    /// Parse raw art, dropping leading and trailing blank lines.
    pub fn from_art(art: &str) -> (logo: Logo)
        ensures
            logo@ == art_logo(art@),
    {
        let mut lines = split_lines(art);
        let ghost all = strings_text(lines@);
        while lines.len() > 0 && blank(lines[0].as_str())
            invariant
                drop_leading_blank(strings_text(lines@)) == drop_leading_blank(all),
            decreases lines@.len(),
        {
            let ghost before = strings_text(lines@);
            lines.remove(0);
            assert(strings_text(lines@) =~= before.drop_first());
        }
        assert(strings_text(lines@) == drop_leading_blank(all));
        let ghost lead = strings_text(lines@);
        while lines.len() > 0 && blank(lines[lines.len() - 1].as_str())
            invariant
                drop_trailing_blank(strings_text(lines@)) == drop_trailing_blank(lead),
            decreases lines@.len(),
        {
            let ghost before = strings_text(lines@);
            lines.pop();
            assert(strings_text(lines@) =~= before.drop_last());
        }
        Logo { lines }
    }

    /// The logo's lines, top to bottom.
    pub fn lines(&self) -> (lines: &[String])
        ensures
            strings_text(lines@) == self@,
    {
        self.lines.as_slice()
    }

    /// Number of lines.
    pub fn height(&self) -> (h: usize)
        ensures
            h == self@.len(),
    {
        self.lines.len()
    }

    /// Visible width: the widest line, in characters.
    pub fn width(&self) -> (w: usize)
        ensures
            w == max_width(self@),
    {
        let mut w: usize = 0;
        let mut i: usize = 0;
        while i < self.lines.len()
            invariant
                i <= self.lines@.len(),
                w == max_width(strings_text(self.lines@).subrange(0, i as int)),
            decreases self.lines@.len() - i,
        {
            let len = self.lines[i].as_str().unicode_len();
            assert(strings_text(self.lines@).subrange(0, i + 1).drop_last() =~= strings_text(self.lines@).subrange(0, i as int));
            if len > w {
                w = len;
            }
            i = i + 1;
        }
        assert(strings_text(self.lines@).subrange(0, i as int) =~= strings_text(self.lines@));
        w
    }
}

/// The text of an optional string, with `None` as the empty string.
pub open spec fn text_or_empty(s: Option<&str>) -> Seq<char> {
    match s {
        Some(t) => t@,
        None => Seq::empty(),
    }
}

/// The art for the running system: WSL when the kernel string mentions
/// `microsoft` or `wsl` (ignoring ASCII case); otherwise the distribution
/// named in the OS string (`arch`, `debian`, `fedora`, `ubuntu`, `darwin`,
/// checked in that order), falling back to the generic logo.
pub open spec fn detected_art(os_name: Option<&str>, kernel: Option<&str>) -> &'static str {
    let k = ascii_lower(text_or_empty(kernel));
    let o = ascii_lower(text_or_empty(os_name));
    if contains(k, "microsoft"@) || contains(k, "wsl"@) {
        art::WSL
    } else if contains(o, "arch"@) {
        art::ARCH
    } else if contains(o, "debian"@) {
        art::DEBIAN
    } else if contains(o, "fedora"@) {
        art::FEDORA
    } else if contains(o, "ubuntu"@) {
        art::UBUNTU
    } else if contains(o, "darwin"@) {
        art::MAC
    } else {
        art::GENERIC
    }
}

/// The characters of an optional string, empty for `None`.
fn chars_or_empty(s: Option<&str>) -> (v: Vec<char>)
    ensures
        v@ == text_or_empty(s),
{
    match s {
        Some(t) => chars_of(t),
        None => Vec::new(),
    }
}

/// The ASCII lowercase of a sequence of characters.
fn lowered(cs: &Vec<char>) -> (v: Vec<char>)
    ensures
        v@ == ascii_lower(cs@),
{
    let mut v: Vec<char> = Vec::new();
    let mut i: usize = 0;
    while i < cs.len()
        invariant
            i <= cs@.len(),
            v@ == ascii_lower(cs@.subrange(0, i as int)),
        decreases cs@.len() - i,
    {
        v.push(crate::text::to_lower_char(cs[i]));
        i = i + 1;
        assert(v@ =~= ascii_lower(cs@.subrange(0, i as int)));
    }
    assert(cs@.subrange(0, i as int) =~= cs@);
    v
}

/// Pick the art for the running system.
///
/// WSL is detected from the kernel string and takes precedence (it is the most
/// specific signal); otherwise the distribution is matched from the OS name,
/// falling back to a generic logo.
pub fn detect(os_name: Option<&str>, kernel: Option<&str>) -> (art: &'static str)
    ensures
        art == detected_art(os_name, kernel),
{
    let kernel_lc = lowered(&chars_or_empty(kernel));
    if contains_chars(kernel_lc.as_slice(), "microsoft") || contains_chars(kernel_lc.as_slice(), "wsl") {
        return art::WSL;
    }
    let os_lc = lowered(&chars_or_empty(os_name));
    if contains_chars(os_lc.as_slice(), "arch") {
        art::ARCH
    } else if contains_chars(os_lc.as_slice(), "debian") {
        art::DEBIAN
    } else if contains_chars(os_lc.as_slice(), "fedora") {
        art::FEDORA
    } else if contains_chars(os_lc.as_slice(), "ubuntu") {
        art::UBUNTU
    } else if contains_chars(os_lc.as_slice(), "darwin") {
        art::MAC
    } else {
        art::GENERIC
    }
}

/// The art named `name` (already lowercase), if any.
pub open spec fn art_named(name: Seq<char>) -> Option<&'static str> {
    if name == "arch"@ {
        Some(art::ARCH)
    } else if name == "debian"@ {
        Some(art::DEBIAN)
    } else if name == "fedora"@ {
        Some(art::FEDORA)
    } else if name == "ubuntu"@ {
        Some(art::UBUNTU)
    } else if name == "wsl"@ {
        Some(art::WSL)
    } else if name == "generic"@ {
        Some(art::GENERIC)
    } else {
        None
    }
}

/// Look up art by explicit logo name, ignoring ASCII case.
pub fn by_name(name: &str) -> (art: Option<&'static str>)
    ensures
        art == art_named(ascii_lower(name@)),
{
    let cs = chars_of(name);
    if lower_equals(cs.as_slice(), "arch") {
        Some(art::ARCH)
    } else if lower_equals(cs.as_slice(), "debian") {
        Some(art::DEBIAN)
    } else if lower_equals(cs.as_slice(), "fedora") {
        Some(art::FEDORA)
    } else if lower_equals(cs.as_slice(), "ubuntu") {
        Some(art::UBUNTU)
    } else if lower_equals(cs.as_slice(), "wsl") {
        Some(art::WSL)
    } else if lower_equals(cs.as_slice(), "generic") {
        Some(art::GENERIC)
    } else {
        None
    }
}

/// Error returned when an explicit logo name is not recognized.
#[derive(Debug, PartialEq, Eq)]
pub struct UnknownLogo(pub String);

impl UnknownLogo {
    /// The human-readable message: `unknown logo '<name>'`.
    pub fn message(&self) -> (m: String)
        ensures
            m@ == "unknown logo '"@ + self.0@ + "'"@,
    {
        let mut m = String::from_str("unknown logo '");
        m.append(self.0.as_str());
        m.append("'");
        m
    }
}

/// What a configured logo name selects: `Some(None)` disables the logo,
/// `Some(Some(art))` draws `art`, and `None` means the name is unknown.
///
/// `none` and `off` disable the logo, `auto` detects it from the system, and
/// any other name is looked up (all ignoring ASCII case).
pub open spec fn logo_choice(name: Seq<char>, os_name: Option<&str>, kernel: Option<&str>) -> Option<Option<&'static str>> {
    let n = ascii_lower(name);
    if n == "none"@ || n == "off"@ {
        Some(None)
    } else if n == "auto"@ {
        Some(Some(detected_art(os_name, kernel)))
    } else {
        match art_named(n) {
            Some(a) => Some(Some(a)),
            None => None,
        }
    }
}

/// Resolve a configured logo name into a [`Logo`], if any.
///
/// `"none"`/`"off"` disables the logo (`Ok(None)`); `"auto"` detects from the
/// system; any other name is looked up explicitly and errors if unknown.
pub fn resolve(name: &str, os_name: Option<&str>, kernel: Option<&str>) -> (r: Result<Option<Logo>, UnknownLogo>)
    ensures
        logo_choice(name@, os_name, kernel) == Some(None::<&'static str>) ==> r == Ok::<Option<Logo>, UnknownLogo>(None),
        logo_choice(name@, os_name, kernel) matches Some(Some(a)) ==> (r matches Ok(Some(l)) && l@ == art_logo(a@)),
        logo_choice(name@, os_name, kernel) is None ==> (r matches Err(e) && e.0@ == name@),
{
    let cs = chars_of(name);
    if lower_equals(cs.as_slice(), "none") || lower_equals(cs.as_slice(), "off") {
        Ok(None)
    } else if lower_equals(cs.as_slice(), "auto") {
        Ok(Some(Logo::from_art(detect(os_name, kernel))))
    } else {
        match by_name(name) {
            Some(a) => Ok(Some(Logo::from_art(a))),
            None => Err(UnknownLogo(String::from_str(name))),
        }
    }
}

proof fn lemma_drop_leading(ls: Seq<Seq<char>>) -> (k: int)
    ensures
        0 <= k <= ls.len(),
        drop_leading_blank(ls) == ls.subrange(k, ls.len() as int),
        forall|j: int| 0 <= j < k ==> is_blank(#[trigger] ls[j]),
        drop_leading_blank(ls).len() > 0 ==> !is_blank(drop_leading_blank(ls)[0]),
    decreases ls.len(),
{
    if ls.len() > 0 && is_blank(ls[0]) {
        let k1 = lemma_drop_leading(ls.drop_first());
        assert(ls.drop_first().subrange(k1, ls.drop_first().len() as int) =~= ls.subrange(k1 + 1, ls.len() as int));
        assert forall|j: int| 0 <= j < k1 + 1 implies is_blank(#[trigger] ls[j]) by {
            if j > 0 {
                assert(ls[j] == ls.drop_first()[j - 1]);
            }
        }
        k1 + 1
    } else {
        assert(ls.subrange(0, ls.len() as int) =~= ls);
        0
    }
}

proof fn lemma_drop_trailing(ls: Seq<Seq<char>>) -> (k: int)
    ensures
        0 <= k <= ls.len(),
        drop_trailing_blank(ls) == ls.subrange(0, k),
        forall|j: int| k <= j < ls.len() ==> is_blank(#[trigger] ls[j]),
        drop_trailing_blank(ls).len() > 0 ==> !is_blank(drop_trailing_blank(ls).last()),
    decreases ls.len(),
{
    if ls.len() > 0 && is_blank(ls.last()) {
        let k1 = lemma_drop_trailing(ls.drop_last());
        assert(ls.drop_last().subrange(0, k1) =~= ls.subrange(0, k1));
        assert forall|j: int| k1 <= j < ls.len() implies is_blank(#[trigger] ls[j]) by {
            if j < ls.len() - 1 {
                assert(ls[j] == ls.drop_last()[j]);
            }
        }
        k1
    } else {
        assert(ls.subrange(0, ls.len() as int) =~= ls);
        ls.len() as int
    }
}

/// A logo is a contiguous run of its art's lines: every line before or after
/// the run is blank, and the logo neither starts nor ends with a blank line.
pub proof fn law_logo_is_trimmed_run_of_lines(art: Seq<char>)
    ensures
        exists|lo: int, hi: int|
            {
                &&& 0 <= lo <= hi <= text_lines(art).len()
                &&& art_logo(art) == text_lines(art).subrange(lo, hi)
                &&& forall|j: int| 0 <= j < lo ==> is_blank(#[trigger] text_lines(art)[j])
                &&& forall|j: int| hi <= j < text_lines(art).len() ==> is_blank(#[trigger] text_lines(art)[j])
            },
        art_logo(art).len() > 0 ==> !is_blank(art_logo(art)[0]) && !is_blank(art_logo(art).last()),
{
    let ls = text_lines(art);
    let lead = drop_leading_blank(ls);
    let lo = lemma_drop_leading(ls);
    let k = lemma_drop_trailing(lead);
    let hi = lo + k;
    assert(art_logo(art) =~= ls.subrange(lo, hi));
    assert forall|j: int| hi <= j < ls.len() implies is_blank(#[trigger] ls[j]) by {
        assert(ls[j] == lead[j - lo]);
    }
    if art_logo(art).len() > 0 {
        assert(art_logo(art)[0] == lead[0]);
    }
}

/// The kernel string wins: a kernel that mentions `microsoft` or `wsl`
/// (ignoring ASCII case) selects the WSL logo whatever the OS is.
pub proof fn law_wsl_kernel_takes_precedence(os_name: Option<&str>, kernel: Option<&str>)
    requires
        contains(ascii_lower(text_or_empty(kernel)), "microsoft"@) || contains(ascii_lower(text_or_empty(kernel)), "wsl"@),
    ensures
        detected_art(os_name, kernel) == art::WSL,
{
}

/// The documented logo names each select their own art (`arch`, `debian`,
/// `fedora`, `ubuntu`, `wsl`, `generic`); `none` and `off` select no logo and
/// `auto` the one detected for the system.
pub proof fn law_documented_logo_names(os_name: Option<&str>, kernel: Option<&str>)
    ensures
        art_named("arch"@) == Some(art::ARCH),
        art_named("debian"@) == Some(art::DEBIAN),
        art_named("fedora"@) == Some(art::FEDORA),
        art_named("ubuntu"@) == Some(art::UBUNTU),
        art_named("wsl"@) == Some(art::WSL),
        art_named("generic"@) == Some(art::GENERIC),
        logo_choice("arch"@, os_name, kernel) == Some(Some(art::ARCH)),
        logo_choice("debian"@, os_name, kernel) == Some(Some(art::DEBIAN)),
        logo_choice("fedora"@, os_name, kernel) == Some(Some(art::FEDORA)),
        logo_choice("ubuntu"@, os_name, kernel) == Some(Some(art::UBUNTU)),
        logo_choice("wsl"@, os_name, kernel) == Some(Some(art::WSL)),
        logo_choice("generic"@, os_name, kernel) == Some(Some(art::GENERIC)),
        logo_choice("none"@, os_name, kernel) == Some(None::<&'static str>),
        logo_choice("off"@, os_name, kernel) == Some(None::<&'static str>),
        logo_choice("auto"@, os_name, kernel) == Some(Some(detected_art(os_name, kernel))),
{
    reveal_strlit("arch");
    reveal_strlit("debian");
    reveal_strlit("fedora");
    reveal_strlit("ubuntu");
    reveal_strlit("wsl");
    reveal_strlit("generic");
    reveal_strlit("none");
    reveal_strlit("off");
    reveal_strlit("auto");
    assert("debian"@[0] != "arch"@[0]);
    assert("fedora"@[0] != "arch"@[0]);
    assert("fedora"@[0] != "debian"@[0]);
    assert("ubuntu"@[0] != "arch"@[0]);
    assert("ubuntu"@[0] != "debian"@[0]);
    assert("ubuntu"@[0] != "fedora"@[0]);
    assert("wsl"@[0] != "arch"@[0]);
    assert("wsl"@[0] != "debian"@[0]);
    assert("wsl"@[0] != "fedora"@[0]);
    assert("wsl"@[0] != "ubuntu"@[0]);
    assert("generic"@[0] != "arch"@[0]);
    assert("generic"@[0] != "debian"@[0]);
    assert("generic"@[0] != "fedora"@[0]);
    assert("generic"@[0] != "ubuntu"@[0]);
    assert("generic"@[0] != "wsl"@[0]);
    assert("arch"@[0] != "none"@[0]);
    assert("arch"@.len() != "off"@.len());
    assert("arch"@[1] != "auto"@[1]);
    assert("debian"@.len() != "none"@.len());
    assert("debian"@.len() != "off"@.len());
    assert("debian"@.len() != "auto"@.len());
    assert("fedora"@.len() != "none"@.len());
    assert("fedora"@.len() != "off"@.len());
    assert("fedora"@.len() != "auto"@.len());
    assert("ubuntu"@.len() != "none"@.len());
    assert("ubuntu"@.len() != "off"@.len());
    assert("ubuntu"@.len() != "auto"@.len());
    assert("wsl"@.len() != "none"@.len());
    assert("wsl"@[0] != "off"@[0]);
    assert("wsl"@.len() != "auto"@.len());
    assert("generic"@.len() != "none"@.len());
    assert("generic"@.len() != "off"@.len());
    assert("generic"@.len() != "auto"@.len());
    assert("auto"@[0] != "none"@[0]);
    assert("auto"@.len() != "off"@.len());
    assert(ascii_lower("arch"@) =~= "arch"@);
    assert(ascii_lower("debian"@) =~= "debian"@);
    assert(ascii_lower("fedora"@) =~= "fedora"@);
    assert(ascii_lower("ubuntu"@) =~= "ubuntu"@);
    assert(ascii_lower("wsl"@) =~= "wsl"@);
    assert(ascii_lower("generic"@) =~= "generic"@);
    assert(ascii_lower("none"@) =~= "none"@);
    assert(ascii_lower("off"@) =~= "off"@);
    assert(ascii_lower("auto"@) =~= "auto"@);
}

/// A logo name means the same whatever the case of its letters:
/// `--logo Debian` selects what `--logo debian` selects.
pub proof fn law_logo_name_ignores_case(s: Seq<char>, word: Seq<char>, os_name: Option<&str>, kernel: Option<&str>)
    requires
        case_variant_of(s, word),
        has_no_upper(word),
    ensures
        logo_choice(s, os_name, kernel) == logo_choice(word, os_name, kernel),
{
    law_ascii_lower_folds_case(s, word);
    law_ascii_lower_folds_case(word, word);
}

/// A kernel string that mentions `microsoft` or `wsl`, in any mix of upper
/// and lower case (`4.4.0-19041-Microsoft`), selects the WSL logo whatever the
/// OS is.
pub proof fn law_wsl_kernel_any_case(os_name: Option<&str>, kernel: Option<&str>, word: Seq<char>, i: int)
    requires
        word == "microsoft"@ || word == "wsl"@,
        0 <= i,
        i + word.len() <= text_or_empty(kernel).len(),
        case_variant_of(text_or_empty(kernel).subrange(i, i + word.len()), word),
    ensures
        detected_art(os_name, kernel) == art::WSL,
{
    reveal_strlit("microsoft");
    reveal_strlit("wsl");
    let k = text_or_empty(kernel);
    let sub = k.subrange(i, i + word.len());
    assert(has_no_upper(word));
    law_ascii_lower_folds_case(sub, word);
    assert(ascii_lower(k).subrange(i, i + word.len()) =~= ascii_lower(sub));
    assert(occurs_at(ascii_lower(k), word, i));
}

/// Without WSL in the kernel string, the distribution named in the OS string
/// (in any mix of upper and lower case) picks the logo: `arch`, then `debian`,
/// `fedora`, `ubuntu` and `darwin` (macOS), the first of these the OS string
/// mentions winning.
pub proof fn law_os_name_selects_distribution(os_name: Option<&str>, kernel: Option<&str>, word: Seq<char>, i: int)
    requires
        !contains(ascii_lower(text_or_empty(kernel)), "microsoft"@),
        !contains(ascii_lower(text_or_empty(kernel)), "wsl"@),
        word == "arch"@ || word == "debian"@ || word == "fedora"@ || word == "ubuntu"@ || word == "darwin"@,
        0 <= i,
        i + word.len() <= text_or_empty(os_name).len(),
        case_variant_of(text_or_empty(os_name).subrange(i, i + word.len()), word),
    ensures
        ({
            let o = ascii_lower(text_or_empty(os_name));
            &&& word == "arch"@ ==> detected_art(os_name, kernel) == art::ARCH
            &&& word == "debian"@ && !contains(o, "arch"@) ==> detected_art(os_name, kernel) == art::DEBIAN
            &&& word == "fedora"@ && !contains(o, "arch"@) && !contains(o, "debian"@) ==> detected_art(
                os_name,
                kernel,
            ) == art::FEDORA
            &&& word == "ubuntu"@ && !contains(o, "arch"@) && !contains(o, "debian"@) && !contains(o, "fedora"@)
                ==> detected_art(os_name, kernel) == art::UBUNTU
            &&& word == "darwin"@ && !contains(o, "arch"@) && !contains(o, "debian"@) && !contains(o, "fedora"@)
                && !contains(o, "ubuntu"@) ==> detected_art(os_name, kernel) == art::MAC
        }),
{
    reveal_strlit("arch");
    reveal_strlit("debian");
    reveal_strlit("fedora");
    reveal_strlit("ubuntu");
    reveal_strlit("darwin");
    let o = text_or_empty(os_name);
    let sub = o.subrange(i, i + word.len());
    assert(has_no_upper(word));
    law_ascii_lower_folds_case(sub, word);
    assert(ascii_lower(o).subrange(i, i + word.len()) =~= ascii_lower(sub));
    assert(occurs_at(ascii_lower(o), word, i));
}

} // verus!
