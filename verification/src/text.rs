//! Text helpers shared by the formatting layers: decimal rendering and
//! character-level views of strings.
use vstd::prelude::*;
use vstd::string::*;

verus! {

/// The ASCII digit for `d` (`d < 10`).
pub open spec fn digit_char(d: nat) -> char {
    if d == 0 { '0' } else if d == 1 { '1' } else if d == 2 { '2' } else if d == 3 { '3' }
    else if d == 4 { '4' } else if d == 5 { '5' } else if d == 6 { '6' } else if d == 7 { '7' }
    else if d == 8 { '8' } else { '9' }
}

/// The decimal rendering of `n`, without leading zeros (`0` renders as `"0"`).
pub open spec fn decimal(n: nat) -> Seq<char>
    decreases n,
{
    if n < 10 {
        seq![digit_char(n)]
    } else {
        decimal(n / 10).push(digit_char(n % 10))
    }
}

pub fn digit_str(d: u64) -> (s: &'static str)
    requires
        d < 10,
    ensures
        s@ == seq![digit_char(d as nat)],
{
    proof {
        reveal_strlit("0");
        reveal_strlit("1");
        reveal_strlit("2");
        reveal_strlit("3");
        reveal_strlit("4");
        reveal_strlit("5");
        reveal_strlit("6");
        reveal_strlit("7");
        reveal_strlit("8");
        reveal_strlit("9");
    }
    if d == 0 { "0" } else if d == 1 { "1" } else if d == 2 { "2" } else if d == 3 { "3" }
    else if d == 4 { "4" } else if d == 5 { "5" } else if d == 6 { "6" } else if d == 7 { "7" }
    else if d == 8 { "8" } else { "9" }
}

/// Append the digit `d` to `out`.
pub fn push_digit(out: &mut String, d: u64)
    requires
        d < 10,
    ensures
        final(out)@ == old(out)@.push(digit_char(d as nat)),
{
    out.append(digit_str(d));
}

/// The characters of a sequence of digits (each below 10).
pub open spec fn digit_chars(ds: Seq<u64>) -> Seq<char> {
    ds.map_values(|d: u64| digit_char(d as nat))
}

/// Append the decimal rendering of `n` to `out`.
pub fn push_decimal(out: &mut String, n: u64)
    ensures
        final(out)@ == old(out)@ + decimal(n as nat),
{
    // Digits, most significant first.
    let mut digits: Vec<u64> = Vec::new();
    let mut m: u64 = n;
    loop
        invariant_except_break
            decimal(n as nat) == decimal(m as nat) + digit_chars(digits@),
        invariant
            forall|i: int| 0 <= i < digits@.len() ==> digits@[i] < 10,
        ensures
            decimal(n as nat) == digit_chars(digits@),
        decreases m,
    {
        if m < 10 {
            digits.insert(0, m);
            assert(digit_chars(digits@) =~= seq![digit_char(m as nat)] + digit_chars(digits@.drop_first()));
            break;
        }
        let ghost before = digits@;
        digits.insert(0, m % 10);
        assert(digit_chars(digits@) =~= seq![digit_char((m % 10) as nat)] + digit_chars(before));
        m = m / 10;
    }
    let ghost start = out@;
    let mut i: usize = 0;
    while i < digits.len()
        invariant
            i <= digits@.len(),
            forall|j: int| 0 <= j < digits@.len() ==> digits@[j] < 10,
            out@ == start + digit_chars(digits@.subrange(0, i as int)),
        decreases digits@.len() - i,
    {
        out.append(digit_str(digits[i]));
        assert(digit_chars(digits@.subrange(0, i + 1)) =~= digit_chars(digits@.subrange(0, i as int)).push(digit_char(digits@[i as int] as nat)));
        i = i + 1;
    }
    assert(digits@.subrange(0, digits@.len() as int) =~= digits@);
}

/// `items` joined by `sep`: `items[0] + sep + items[1] + ... + items[n-1]`.
pub open spec fn join(items: Seq<Seq<char>>, sep: Seq<char>) -> Seq<char>
    decreases items.len(),
{
    if items.len() == 0 {
        Seq::empty()
    } else if items.len() == 1 {
        items[0]
    } else {
        items[0] + sep + join(items.drop_first(), sep)
    }
}

/// Joining one more item onto a non-empty list appends the separator and the item.
pub proof fn lemma_join_push(items: Seq<Seq<char>>, sep: Seq<char>, item: Seq<char>)
    ensures
        items.len() == 0 ==> join(items.push(item), sep) == item,
        items.len() > 0 ==> join(items.push(item), sep) == join(items, sep) + sep + item,
    decreases items.len(),
{
    if items.len() == 0 {
        assert(items.push(item) =~= seq![item]);
    } else if items.len() == 1 {
        let pushed = items.push(item);
        assert(pushed.drop_first() =~= seq![item]);
        assert(join(pushed.drop_first(), sep) == item);
        assert(join(items, sep) == items[0]);
    } else {
        let pushed = items.push(item);
        lemma_join_push(items.drop_first(), sep, item);
        assert(pushed.drop_first() =~= items.drop_first().push(item));
        assert(join(pushed, sep) == items[0] + sep + join(items.drop_first().push(item), sep));
        assert(join(pushed, sep) =~= join(items, sep) + sep + item);
    }
}

/// ASCII lowercase of one character; other characters are unchanged.
pub open spec fn lower_char(c: char) -> char {
    if 'A' <= c && c <= 'Z' {
        ((c as int) + 32) as char
    } else {
        c
    }
}

/// ASCII lowercase of a string, character by character.
pub open spec fn ascii_lower(s: Seq<char>) -> Seq<char> {
    s.map_values(|c: char| lower_char(c))
}

/// `s` spells `word` with any of the word's lowercase ASCII letters written in
/// upper case (`"MicroSoft"` spells `"microsoft"`).
pub open spec fn case_variant_of(s: Seq<char>, word: Seq<char>) -> bool {
    &&& s.len() == word.len()
    &&& forall|i: int|
        0 <= i < s.len() ==> #[trigger] s[i] == word[i] || ('a' <= word[i] <= 'z' && (s[i] as int) + 32
            == word[i] as int)
}

/// `word` holds no upper-case ASCII letter.
pub open spec fn has_no_upper(word: Seq<char>) -> bool {
    forall|i: int| 0 <= i < word.len() ==> !('A' <= #[trigger] word[i] <= 'Z')
}

/// Lowercasing maps each upper-case ASCII letter to the same letter in lower
/// case (32 code points further) and leaves every other character as it is.
pub proof fn law_lower_char_is_ascii_lowercase(c: char)
    ensures
        'A' <= c <= 'Z' ==> 'a' <= lower_char(c) <= 'z' && lower_char(c) as int == c as int + 32,
        !('A' <= c <= 'Z') ==> lower_char(c) == c,
{
}

/// Lowercasing any spelling of a word with no upper-case letters gives the word.
pub proof fn law_ascii_lower_folds_case(s: Seq<char>, word: Seq<char>)
    requires
        case_variant_of(s, word),
        has_no_upper(word),
    ensures
        ascii_lower(s) == word,
{
    assert forall|i: int| 0 <= i < s.len() implies #[trigger] ascii_lower(s)[i] == word[i] by {
        law_lower_char_is_ascii_lowercase(s[i]);
        assert(!('A' <= word[i] <= 'Z'));
        if s[i] != word[i] {
            assert('A' <= s[i] <= 'Z');
            assert(lower_char(s[i]) as int == word[i] as int);
        }
    }
    assert(ascii_lower(s) =~= word);
}

pub fn to_lower_char(c: char) -> (l: char)
    ensures
        l == lower_char(c),
{
    if 'A' <= c && c <= 'Z' {
        ((c as u32) + 32) as u8 as char
    } else {
        c
    }
}

/// The characters of `s`, in order.
pub fn chars_of(s: &str) -> (v: Vec<char>)
    ensures
        v@ == s@,
{
    let n = s.unicode_len();
    let mut v: Vec<char> = Vec::new();
    let mut i: usize = 0;
    while i < n
        invariant
            n == s@.len(),
            i <= n,
            v@ == s@.subrange(0, i as int),
        decreases n - i,
    {
        v.push(s.get_char(i));
        i = i + 1;
        assert(v@ =~= s@.subrange(0, i as int));
    }
    assert(s@.subrange(0, n as int) =~= s@);
    v
}

/// Whether the ASCII lowercase of `s` equals `t`.
pub fn lower_equals(s: &[char], t: &str) -> (b: bool)
    ensures
        b == (ascii_lower(s@) == t@),
{
    let tv = chars_of(t);
    if s.len() != tv.len() {
        assert(ascii_lower(s@).len() != t@.len());
        return false;
    }
    let mut i: usize = 0;
    while i < s.len()
        invariant
            tv@ == t@,
            s@.len() == tv@.len(),
            i <= s@.len(),
            forall|j: int| 0 <= j < i ==> lower_char(s@[j]) == tv@[j],
        decreases s@.len() - i,
    {
        if to_lower_char(s[i]) != tv[i] {
            assert(ascii_lower(s@)[i as int] != t@[i as int]);
            return false;
        }
        i = i + 1;
    }
    assert(ascii_lower(s@) =~= t@);
    true
}

/// Whether two strings hold the same characters.
pub fn str_equals(a: &str, b: &str) -> (eq: bool)
    ensures
        eq == (a@ == b@),
{
    let av = chars_of(a);
    let bv = chars_of(b);
    if av.len() != bv.len() {
        return false;
    }
    let mut i: usize = 0;
    while i < av.len()
        invariant
            av@ == a@,
            bv@ == b@,
            av@.len() == bv@.len(),
            i <= av@.len(),
            forall|j: int| 0 <= j < i ==> av@[j] == bv@[j],
        decreases av@.len() - i,
    {
        if av[i] != bv[i] {
            return false;
        }
        i = i + 1;
    }
    assert(a@ =~= b@);
    true
}

/// Whether `c` has the Unicode `White_Space` property (as `char::is_whitespace`).
pub open spec fn is_whitespace(c: char) -> bool {
    ||| ('\t' <= c && c <= '\r')
    ||| c == ' '
    ||| c == '\u{85}'
    ||| c == '\u{a0}'
    ||| c == '\u{1680}'
    ||| ('\u{2000}' <= c && c <= '\u{200a}')
    ||| c == '\u{2028}'
    ||| c == '\u{2029}'
    ||| c == '\u{202f}'
    ||| c == '\u{205f}'
    ||| c == '\u{3000}'
}

pub fn is_whitespace_char(c: char) -> (w: bool)
    ensures
        w == is_whitespace(c),
{
    ('\t' <= c && c <= '\r') || c == ' ' || c == '\u{85}' || c == '\u{a0}' || c == '\u{1680}'
        || ('\u{2000}' <= c && c <= '\u{200a}') || c == '\u{2028}' || c == '\u{2029}'
        || c == '\u{202f}' || c == '\u{205f}' || c == '\u{3000}'
}

/// Whether every character of `s` is whitespace (so `s.trim()` is empty).
pub open spec fn is_blank(s: Seq<char>) -> bool {
    forall|i: int| 0 <= i < s.len() ==> is_whitespace(#[trigger] s[i])
}

/// Whether `s` is blank.
pub fn blank(s: &str) -> (b: bool)
    ensures
        b == is_blank(s@),
{
    let cs = chars_of(s);
    let mut i: usize = 0;
    while i < cs.len()
        invariant
            cs@ == s@,
            i <= cs@.len(),
            forall|j: int| 0 <= j < i ==> is_whitespace(#[trigger] s@[j]),
        decreases cs@.len() - i,
    {
        if !is_whitespace_char(cs[i]) {
            return false;
        }
        i = i + 1;
    }
    true
}

/// Whether `sub` occurs in `s` at position `i`.
pub open spec fn occurs_at(s: Seq<char>, sub: Seq<char>, i: int) -> bool {
    0 <= i && i + sub.len() <= s.len() && s.subrange(i, i + sub.len()) == sub
}

/// Whether `sub` occurs somewhere in `s`.
pub open spec fn contains(s: Seq<char>, sub: Seq<char>) -> bool {
    exists|i: int| occurs_at(s, sub, i)
}

/// Whether `sub` occurs in `s`.
pub fn contains_chars(s: &[char], sub: &str) -> (found: bool)
    ensures
        found == contains(s@, sub@),
{
    let t = chars_of(sub);
    if t.len() > s.len() {
        assert(forall|i: int| !occurs_at(s@, sub@, i));
        return false;
    }
    let last = s.len() - t.len();
    let slen = s.len();
    let mut i: usize = 0;
    loop
        invariant
            t@ == sub@,
            slen == s@.len(),
            s@.len() == last + t@.len(),
            i <= last,
            forall|k: int| 0 <= k < i ==> !occurs_at(s@, sub@, k),
        ensures
            forall|k: int| 0 <= k <= last ==> !occurs_at(s@, sub@, k),
        decreases last - i,
    {
        let mut j: usize = 0;
        let mut matched = true;
        while j < t.len()
            invariant
                t@ == sub@,
                slen == s@.len(),
                s@.len() == last + t@.len(),
                i <= last,
                j <= t@.len(),
                matched ==> forall|m: int| 0 <= m < j ==> s@[i + m] == t@[m],
                !matched ==> !occurs_at(s@, sub@, i as int),
            decreases t@.len() - j,
        {
            if s[i + j] != t[j] {
                matched = false;
                assert(s@.subrange(i as int, i + t@.len())[j as int] != sub@[j as int]);
            }
            j = j + 1;
        }
        if matched {
            assert(s@.subrange(i as int, i + t@.len()) =~= sub@);
            assert(occurs_at(s@, sub@, i as int));
            return true;
        }
        assert(!occurs_at(s@, sub@, i as int));
        if i == last {
            break;
        }
        i = i + 1;
    }
    assert(forall|k: int| !occurs_at(s@, sub@, k)) by {
        assert forall|k: int| !occurs_at(s@, sub@, k) by {
            if k > last {
                assert(k + sub@.len() > s@.len());
            }
        }
    }
    false
}

/// The width of the widest line, in characters.
pub open spec fn max_width(ls: Seq<Seq<char>>) -> nat
    decreases ls.len(),
{
    if ls.len() == 0 {
        0
    } else {
        let w = max_width(ls.drop_last());
        if ls.last().len() > w { ls.last().len() } else { w }
    }
}

/// `n` spaces.
pub open spec fn spaces(n: nat) -> Seq<char> {
    Seq::new(n, |i: int| ' ')
}

/// Append `n` spaces to `out`.
pub fn push_spaces(out: &mut String, n: usize)
    ensures
        final(out)@ == old(out)@ + spaces(n as nat),
{
    let ghost start = out@;
    let mut i: usize = 0;
    while i < n
        invariant
            i <= n,
            out@ == start + spaces(i as nat),
        decreases n - i,
    {
        proof {
            reveal_strlit(" ");
            assert(" "@ =~= seq![' ']);
        }
        out.append(" ");
        i = i + 1;
        assert(out@ =~= start + spaces(i as nat));
    }
}

/// Whether `s` contains no escape character (`ESC`, `\x1b`).
pub open spec fn no_escape(s: Seq<char>) -> bool {
    forall|i: int| 0 <= i < s.len() ==> s[i] != '\x1b'
}

/// No line is wider than the widest.
pub proof fn lemma_max_width_bound(ls: Seq<Seq<char>>, i: int)
    requires
        0 <= i < ls.len(),
    ensures
        ls[i].len() <= max_width(ls),
    decreases ls.len(),
{
    if i < ls.len() - 1 {
        lemma_max_width_bound(ls.drop_last(), i);
    }
}

/// The width of lines is the length of the longest: no line is longer, and
/// some line is that long (0 for no lines).
pub proof fn law_max_width_is_widest(ls: Seq<Seq<char>>)
    ensures
        forall|i: int| 0 <= i < ls.len() ==> (#[trigger] ls[i]).len() <= max_width(ls),
        ls.len() == 0 ==> max_width(ls) == 0,
        ls.len() > 0 ==> exists|i: int| 0 <= i < ls.len() && (#[trigger] ls[i]).len() == max_width(ls),
    decreases ls.len(),
{
    assert forall|i: int| 0 <= i < ls.len() implies (#[trigger] ls[i]).len() <= max_width(ls) by {
        lemma_max_width_bound(ls, i);
    }
    if ls.len() > 0 {
        let init = ls.drop_last();
        law_max_width_is_widest(init);
        if ls.last().len() > max_width(init) || init.len() == 0 {
            assert(ls[ls.len() - 1].len() == max_width(ls));
        } else {
            let j = choose|j: int| 0 <= j < init.len() && (#[trigger] init[j]).len() == max_width(init);
            assert(ls[j] == init[j]);
        }
    }
}

/// The text of a list of strings.
pub open spec fn lines_text(v: Seq<String>) -> Seq<Seq<char>> {
    v.map_values(|l: String| l@)
}

/// `s` without its leading whitespace.
pub open spec fn trim_start(s: Seq<char>) -> Seq<char>
    decreases s.len(),
{
    if s.len() > 0 && is_whitespace(s[0]) {
        trim_start(s.drop_first())
    } else {
        s
    }
}

/// `s` without its trailing whitespace.
pub open spec fn trim_end(s: Seq<char>) -> Seq<char>
    decreases s.len(),
{
    if s.len() > 0 && is_whitespace(s.last()) {
        trim_end(s.drop_last())
    } else {
        s
    }
}

/// `s` without leading and trailing whitespace (as `str::trim`).
pub open spec fn trim(s: Seq<char>) -> Seq<char> {
    trim_end(trim_start(s))
}

proof fn lemma_trim_start(s: Seq<char>) -> (k: int)
    ensures
        0 <= k <= s.len(),
        trim_start(s) == s.subrange(k, s.len() as int),
        is_blank(s.subrange(0, k)),
        trim_start(s).len() > 0 ==> !is_whitespace(trim_start(s)[0]),
    decreases s.len(),
{
    if s.len() > 0 && is_whitespace(s[0]) {
        let k1 = lemma_trim_start(s.drop_first());
        assert(s.drop_first().subrange(k1, s.drop_first().len() as int) =~= s.subrange(k1 + 1, s.len() as int));
        assert forall|j: int| 0 <= j < k1 + 1 implies is_whitespace(#[trigger] s.subrange(0, k1 + 1)[j]) by {
            if j > 0 {
                assert(s.subrange(0, k1 + 1)[j] == s.drop_first().subrange(0, k1)[j - 1]);
            }
        }
        k1 + 1
    } else {
        assert(s.subrange(0, s.len() as int) =~= s);
        0
    }
}

proof fn lemma_trim_end(s: Seq<char>) -> (k: int)
    ensures
        0 <= k <= s.len(),
        trim_end(s) == s.subrange(0, k),
        is_blank(s.subrange(k, s.len() as int)),
        trim_end(s).len() > 0 ==> !is_whitespace(trim_end(s).last()),
    decreases s.len(),
{
    if s.len() > 0 && is_whitespace(s.last()) {
        let k1 = lemma_trim_end(s.drop_last());
        assert(s.drop_last().subrange(0, k1) =~= s.subrange(0, k1));
        assert forall|j: int| 0 <= j < s.len() - k1 implies is_whitespace(#[trigger] s.subrange(k1, s.len() as int)[j]) by {
            if j < s.len() - 1 - k1 {
                assert(s.subrange(k1, s.len() as int)[j] == s.drop_last().subrange(k1, s.len() - 1)[j]);
            }
        }
        k1
    } else {
        assert(s.subrange(0, s.len() as int) =~= s);
        s.len() as int
    }
}

/// Trimming removes whitespace from the two ends and nothing else: the result
/// is a stretch of `s` with only whitespace before and after it, and it
/// neither starts nor ends with whitespace. Spaces, tabs, line feeds and
/// carriage returns count as whitespace; letters and digits do not.
pub proof fn law_trim_removes_outer_whitespace(s: Seq<char>)
    ensures
        exists|lo: int, hi: int|
            {
                &&& 0 <= lo <= hi <= s.len()
                &&& #[trigger] s.subrange(lo, hi) == trim(s)
                &&& is_blank(s.subrange(0, lo))
                &&& is_blank(s.subrange(hi, s.len() as int))
            },
        trim(s).len() > 0 ==> !is_whitespace(trim(s)[0]) && !is_whitespace(trim(s).last()),
        is_whitespace(' ') && is_whitespace('\t') && is_whitespace('\n') && is_whitespace('\r'),
        forall|c: char| ('a' <= c <= 'z' || 'A' <= c <= 'Z' || '0' <= c <= '9') ==> !is_whitespace(c),
{
    let lo = lemma_trim_start(s);
    let t = trim_start(s);
    let k = lemma_trim_end(t);
    let hi = lo + k;
    assert(s.subrange(lo, hi) =~= trim(s));
    assert(s.subrange(hi, s.len() as int) =~= t.subrange(k, t.len() as int));
    if trim(s).len() > 0 {
        assert(trim(s)[0] == t[0]);
    }
}

/// `s` without leading and trailing whitespace.
pub fn trimmed(s: &str) -> (t: String)
    ensures
        t@ == trim(s@),
{
    let cs = chars_of(s);
    let mut lo: usize = 0;
    assert(s@.subrange(0, s@.len() as int) =~= s@);
    while lo < cs.len() && is_whitespace_char(cs[lo])
        invariant
            cs@ == s@,
            lo <= cs@.len(),
            trim_start(s@) == trim_start(s@.subrange(lo as int, s@.len() as int)),
        decreases cs@.len() - lo,
    {
        assert(s@.subrange(lo as int, s@.len() as int).drop_first() =~= s@.subrange(lo + 1, s@.len() as int));
        lo = lo + 1;
    }
    let ghost start = s@.subrange(lo as int, s@.len() as int);
    assert(trim_start(s@) == start);
    let mut hi: usize = cs.len();
    while hi > lo && is_whitespace_char(cs[hi - 1])
        invariant
            cs@ == s@,
            lo <= hi <= cs@.len(),
            start == s@.subrange(lo as int, s@.len() as int),
            trim_end(start) == trim_end(s@.subrange(lo as int, hi as int)),
        decreases hi,
    {
        assert(s@.subrange(lo as int, hi as int).drop_last() =~= s@.subrange(lo as int, hi - 1));
        hi = hi - 1;
    }
    assert(trim_end(start) == s@.subrange(lo as int, hi as int));
    s.substring_char(lo, hi).to_owned()
}

} // verus!
