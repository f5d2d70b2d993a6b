//! Text operations shared by the rest of the crate, stated over sequences of characters.

use vstd::prelude::*;
use vstd::string::*;

verus! {

/// `String::push` appends one character at the end.
pub assume_specification[ String::push ](s: &mut String, c: char)
    ensures
        final(s)@ == old(s)@.push(c),
;

// ── Characters ───────────────────────────────────────────────────────────────

/// The characters with the Unicode property White_Space.
pub open spec fn is_white(c: char) -> bool {
    let n = c as u32;
    ||| 0x09 <= n <= 0x0D
    ||| n == 0x20
    ||| n == 0x85
    ||| n == 0xA0
    ||| n == 0x1680
    ||| 0x2000 <= n <= 0x200A
    ||| n == 0x2028
    ||| n == 0x2029
    ||| n == 0x202F
    ||| n == 0x205F
    ||| n == 0x3000
}

/// Whether a character is white space.
pub fn white(c: char) -> (r: bool)
    ensures
        r == is_white(c),
{
    let n: u32 = c as u32;
    (0x09 <= n && n <= 0x0D) || n == 0x20 || n == 0x85 || n == 0xA0 || n == 0x1680
        || (0x2000 <= n && n <= 0x200A) || n == 0x2028 || n == 0x2029 || n == 0x202F || n == 0x205F
        || n == 0x3000
}

/// Decimal digits and the unaccented Latin letters.
pub open spec fn is_ascii_alphanumeric(c: char) -> bool {
    ||| '0' <= c <= '9'
    ||| 'A' <= c <= 'Z'
    ||| 'a' <= c <= 'z'
}

/// Whether a character is an ASCII letter or digit.
pub fn ascii_alphanumeric(c: char) -> (r: bool)
    ensures
        r == is_ascii_alphanumeric(c),
{
    ('0' <= c && c <= '9') || ('A' <= c && c <= 'Z') || ('a' <= c && c <= 'z')
}

/// The lower-case form of an ASCII letter; every other character as it is.
pub open spec fn ascii_lower(c: char) -> char {
    if 'A' <= c <= 'Z' {
        ((c as u8 + 32) as u8) as char
    } else {
        c
    }
}

/// Lower-cases one ASCII letter.
pub fn to_ascii_lower(c: char) -> (r: char)
    ensures
        r == ascii_lower(c),
{
    if 'A' <= c && c <= 'Z' {
        (c as u8 + 32) as char
    } else {
        c
    }
}

// ── Strings and character vectors ────────────────────────────────────────────

/// The characters of a string, in order.
pub fn chars_of(s: &str) -> (r: Vec<char>)
    ensures
        r@ == s@,
{
    let mut out: Vec<char> = Vec::new();
    for c in it: s.chars()
        invariant
            it.seq() == s@,
            out@ == s@.take(it.index() as int),
    {
        out.push(c);
    }
    out
}

/// The string made of the characters in `chars[from..to]`.
pub fn string_of(chars: &[char], from: usize, to: usize) -> (r: String)
    requires
        from <= to <= chars@.len(),
    ensures
        r@ == chars@.subrange(from as int, to as int),
{
    let mut out = String::new();
    let mut i: usize = from;
    while i < to
        invariant
            from <= i <= to <= chars@.len(),
            out@ == chars@.subrange(from as int, i as int),
        decreases to - i,
    {
        out.push(chars[i]);
        i += 1;
    }
    out
}

/// Whether two strings hold the same characters.
pub fn same_text(a: &str, b: &str) -> (r: bool)
    ensures
        r == (a@ == b@),
{
    a.to_owned() == b.to_owned()
}

/// Whether two optional strings hold the same characters.
pub fn same_option(a: &Option<String>, b: &Option<String>) -> (r: bool)
    ensures
        r == (opt_view(*a) == opt_view(*b)),
{
    match (a, b) {
        (Some(x), Some(y)) => same_text(x.as_str(), y.as_str()),
        (None, None) => true,
        _ => false,
    }
}

/// A text with its ASCII capital letters replaced by small ones.
pub open spec fn ascii_lower_text(s: Seq<char>) -> Seq<char> {
    s.map_values(|c: char| ascii_lower(c))
}

/// Replaces the ASCII capital letters of a text by small ones.
pub fn ascii_lowered(s: &str) -> (r: String)
    ensures
        r@ == ascii_lower_text(s@),
{
    let chars = chars_of(s);
    let n: usize = chars.len();
    let mut out = String::new();
    let mut i: usize = 0;
    while i < n
        invariant
            i <= n,
            n == chars@.len(),
            chars@ == s@,
            out@ == ascii_lower_text(s@.take(i as int)),
        decreases n - i,
    {
        out.push(to_ascii_lower(chars[i]));
        proof {
            assert(out@ =~= ascii_lower_text(s@.take(i + 1)));
        }
        i = i + 1;
    }
    proof {
        assert(s@.take(n as int) =~= s@);
    }
    out
}

/// Whether two texts are equal but for the case of ASCII letters.
pub fn same_but_for_case(a: &str, b: &str) -> (r: bool)
    ensures
        r == (ascii_lower_text(a@) == ascii_lower_text(b@)),
{
    same_text(ascii_lowered(a).as_str(), ascii_lowered(b).as_str())
}

/// The text of an optional string, or a default.
pub open spec fn or_text(o: Option<String>, default: Seq<char>) -> Seq<char> {
    match o {
        Some(s) => s@,
        None => default,
    }
}

/// The text of an optional string, or a default.
pub fn text_or(o: &Option<String>, default: &str) -> (r: String)
    ensures
        r@ == or_text(*o, default@),
{
    match o {
        Some(s) => s.clone(),
        None => default.to_owned(),
    }
}

// ── Trimming ─────────────────────────────────────────────────────────────────

/// `s` without its leading white space.
pub open spec fn trim_start(s: Seq<char>) -> Seq<char>
    decreases s.len(),
{
    if s.len() > 0 && is_white(s[0]) {
        trim_start(s.drop_first())
    } else {
        s
    }
}

/// `s` without its trailing white space.
pub open spec fn trim_end(s: Seq<char>) -> Seq<char>
    decreases s.len(),
{
    if s.len() > 0 && is_white(s.last()) {
        trim_end(s.drop_last())
    } else {
        s
    }
}

/// `s` without white space at either end.
pub open spec fn trim(s: Seq<char>) -> Seq<char> {
    trim_end(trim_start(s))
}

/// `s` without the copies of `c` at its end.
pub open spec fn trim_end_of(s: Seq<char>, c: char) -> Seq<char>
    decreases s.len(),
{
    if s.len() > 0 && s.last() == c {
        trim_end_of(s.drop_last(), c)
    } else {
        s
    }
}

/// The string without white space at either end.
pub fn trimmed(s: &str) -> (r: String)
    ensures
        r@ == trim(s@),
{
    let chars = chars_of(s);
    let mut lo: usize = 0;
    proof {
        assert(s@.skip(0) == s@);
    }
    while lo < chars.len() && white(chars[lo])
        invariant
            chars@ == s@,
            lo <= chars@.len(),
            trim_start(s@) == trim_start(s@.skip(lo as int)),
        decreases chars.len() - lo,
    {
        proof {
            assert(s@.skip(lo as int).drop_first() == s@.skip(lo + 1));
        }
        lo += 1;
    }
    assert(trim_start(s@) == s@.skip(lo as int));
    let mut hi: usize = chars.len();
    proof {
        assert(s@.subrange(lo as int, hi as int) == s@.skip(lo as int));
    }
    while lo < hi && white(chars[hi - 1])
        invariant
            chars@ == s@,
            lo <= hi <= chars@.len(),
            trim(s@) == trim_end(s@.subrange(lo as int, hi as int)),
        decreases hi,
    {
        proof {
            assert(s@.subrange(lo as int, hi as int).drop_last() == s@.subrange(
                lo as int,
                hi - 1,
            ));
        }
        hi -= 1;
    }
    string_of(chars.as_slice(), lo, hi)
}

/// The string without white space at its end.
pub fn end_trimmed(s: &str) -> (r: String)
    ensures
        r@ == trim_end(s@),
{
    let chars = chars_of(s);
    let mut hi: usize = chars.len();
    proof {
        assert(s@.take(hi as int) == s@);
    }
    while 0 < hi && white(chars[hi - 1])
        invariant
            chars@ == s@,
            hi <= chars@.len(),
            trim_end(s@) == trim_end(s@.take(hi as int)),
        decreases hi,
    {
        proof {
            assert(s@.take(hi as int).drop_last() == s@.take(hi - 1));
        }
        hi -= 1;
    }
    proof {
        assert(chars@.subrange(0, hi as int) == s@.take(hi as int));
    }
    string_of(chars.as_slice(), 0, hi)
}

/// The string without the copies of `c` at its end.
pub fn without_trailing(s: &str, c: char) -> (r: String)
    ensures
        r@ == trim_end_of(s@, c),
{
    let chars = chars_of(s);
    let mut hi: usize = chars.len();
    proof {
        assert(s@.take(hi as int) == s@);
    }
    while 0 < hi && chars[hi - 1] == c
        invariant
            chars@ == s@,
            hi <= chars@.len(),
            trim_end_of(s@, c) == trim_end_of(s@.take(hi as int), c),
        decreases hi,
    {
        proof {
            assert(s@.take(hi as int).drop_last() == s@.take(hi - 1));
        }
        hi -= 1;
    }
    proof {
        assert(chars@.subrange(0, hi as int) == s@.take(hi as int));
    }
    string_of(chars.as_slice(), 0, hi)
}

/// Whether the string holds nothing but white space.
pub fn is_blank(s: &str) -> (r: bool)
    ensures
        r == (trim(s@).len() == 0),
{
    trimmed(s).as_str().is_empty()
}

/// Trimming the end leaves no white space there and keeps a prefix of the text.
pub proof fn trim_end_leaves_none(s: Seq<char>)
    ensures
        trim_end(s).len() <= s.len(),
        trim_end(s) == s.take(trim_end(s).len() as int),
        trim_end(s).len() > 0 ==> !is_white(trim_end(s).last()),
    decreases s.len(),
{
    if s.len() > 0 && is_white(s.last()) {
        trim_end_leaves_none(s.drop_last());
        assert(s.drop_last().take(trim_end(s).len() as int) == s.take(trim_end(s).len() as int));
    } else {
        assert(s.take(s.len() as int) == s);
    }
}

/// Trimming the start leaves no white space there and keeps a suffix of the text.
pub proof fn trim_start_leaves_none(s: Seq<char>)
    ensures
        trim_start(s).len() <= s.len(),
        trim_start(s) == s.skip(s.len() - trim_start(s).len()),
        trim_start(s).len() > 0 ==> !is_white(trim_start(s)[0]),
    decreases s.len(),
{
    if s.len() > 0 && is_white(s[0]) {
        trim_start_leaves_none(s.drop_first());
        let k = s.len() - 1 - trim_start(s).len();
        assert(s.drop_first().skip(k) == s.skip(k + 1));
    } else {
        assert(s.skip(0) == s);
    }
}

/// Trimming a second time changes nothing.
pub proof fn trim_is_idempotent(s: Seq<char>)
    ensures
        trim(trim(s)) == trim(s),
        trim(s).len() <= s.len(),
        trim(s).len() > 0 ==> !is_white(trim(s)[0]) && !is_white(trim(s).last()),
{
    trim_start_leaves_none(s);
    trim_end_leaves_none(trim_start(s));
}

proof fn trim_start_keeps_text(s: Seq<char>, i: int)
    requires
        0 <= i < s.len(),
        !is_white(s[i]),
    ensures
        trim_start(s).len() > 0,
    decreases s.len(),
{
    if is_white(s[0]) {
        assert(s.drop_first()[i - 1] == s[i]);
        trim_start_keeps_text(s.drop_first(), i - 1);
    }
}

proof fn trim_end_keeps_text(s: Seq<char>, i: int)
    requires
        0 <= i < s.len(),
        !is_white(s[i]),
    ensures
        trim_end(s).len() > 0,
    decreases s.len(),
{
    if is_white(s.last()) {
        assert(s.drop_last()[i] == s[i]);
        trim_end_keeps_text(s.drop_last(), i);
    }
}

/// Trimming never empties a text that holds more than white space.
pub proof fn trim_keeps_text(s: Seq<char>, i: int)
    requires
        0 <= i < s.len(),
        !is_white(s[i]),
    ensures
        trim(s).len() > 0,
{
    trim_start_keeps_text(s, i);
    trim_start_leaves_none(s);
    trim_end_keeps_text(trim_start(s), 0);
}

/// Trimming the start takes off what stands before the first character that is no white space.
pub proof fn trim_start_cuts_at(s: Seq<char>, i: int)
    requires
        0 <= i < s.len(),
        !is_white(s[i]),
        forall|k: int| 0 <= k < i ==> is_white(#[trigger] s[k]),
    ensures
        trim_start(s) == s.skip(i),
    decreases s.len(),
{
    if i > 0 {
        let rest = s.drop_first();
        assert(is_white(s[0]));
        assert forall|k: int| 0 <= k < i - 1 implies is_white(#[trigger] rest[k]) by {
            assert(rest[k] == s[k + 1]);
        }
        assert(rest[i - 1] == s[i]);
        trim_start_cuts_at(rest, i - 1);
        assert(rest.skip(i - 1) =~= s.skip(i));
    } else {
        assert(s.skip(0) =~= s);
    }
}

/// Trimming the end takes off what stands behind the last character that is no white space.
pub proof fn trim_end_cuts_at(s: Seq<char>, j: int)
    requires
        0 <= j < s.len(),
        !is_white(s[j]),
        forall|k: int| j < k < s.len() ==> is_white(#[trigger] s[k]),
    ensures
        trim_end(s) == s.take(j + 1),
    decreases s.len(),
{
    if j < s.len() - 1 {
        let rest = s.drop_last();
        assert(is_white(s[s.len() - 1]));
        assert forall|k: int| j < k < rest.len() implies is_white(#[trigger] rest[k]) by {
            assert(rest[k] == s[k]);
        }
        trim_end_cuts_at(rest, j);
        assert(rest.take(j + 1) =~= s.take(j + 1));
    } else {
        assert(s.take(j + 1) =~= s);
    }
}

/// A text is trimmed from its first to its last character that is no white space.
pub proof fn trim_cuts_between(s: Seq<char>, i: int, j: int)
    requires
        0 <= i <= j < s.len(),
        !is_white(s[i]),
        !is_white(s[j]),
        forall|k: int| 0 <= k < i ==> is_white(#[trigger] s[k]),
        forall|k: int| j < k < s.len() ==> is_white(#[trigger] s[k]),
    ensures
        trim(s) == s.subrange(i, j + 1),
{
    trim_start_cuts_at(s, i);
    let rest = s.skip(i);
    assert forall|k: int| j - i < k < rest.len() implies is_white(#[trigger] rest[k]) by {
        assert(rest[k] == s[k + i]);
    }
    assert(rest[j - i] == s[j]);
    trim_end_cuts_at(rest, j - i);
    assert(rest.take(j - i + 1) =~= s.subrange(i, j + 1));
}

proof fn trim_start_drops_white(s: Seq<char>)
    ensures
        forall|k: int| 0 <= k < s.len() - trim_start(s).len() ==> is_white(#[trigger] s[k]),
    decreases s.len(),
{
    if s.len() > 0 && is_white(s[0]) {
        let rest = s.drop_first();
        trim_start_drops_white(rest);
        assert forall|k: int| 0 <= k < s.len() - trim_start(s).len() implies is_white(
            #[trigger] s[k],
        ) by {
            if k > 0 {
                assert(is_white(rest[k - 1]));
            }
        }
    }
}

proof fn trim_end_drops_white(s: Seq<char>)
    ensures
        forall|k: int| trim_end(s).len() <= k < s.len() ==> is_white(#[trigger] s[k]),
    decreases s.len(),
{
    if s.len() > 0 && is_white(s.last()) {
        let rest = s.drop_last();
        trim_end_drops_white(rest);
        assert forall|k: int| trim_end(s).len() <= k < s.len() implies is_white(
            #[trigger] s[k],
        ) by {
            if k < s.len() - 1 {
                assert(is_white(rest[k]));
            }
        }
    }
}

/// What trimming finds: nothing but white space, or the first and the last character of the text.
pub proof fn trimming_finds_the_text(s: Seq<char>) -> (r: (int, int))
    ensures
        trim_end(s).len() == 0 <==> trim(s).len() == 0,
        trim_end(s).len() > 0 ==> {
            &&& 0 <= r.0 <= r.1 < s.len()
            &&& !is_white(s[r.0]) && !is_white(s[r.1])
            &&& forall|k: int| 0 <= k < r.0 ==> is_white(#[trigger] s[k])
            &&& forall|k: int| r.1 < k < s.len() ==> is_white(#[trigger] s[k])
            &&& trim_end(s) == s.take(r.1 + 1)
            &&& trim(s) == s.subrange(r.0, r.1 + 1)
        },
{
    trim_start_leaves_none(s);
    trim_end_leaves_none(s);
    trim_start_drops_white(s);
    trim_end_drops_white(s);
    let i = s.len() - trim_start(s).len();
    let j = trim_end(s).len() - 1;
    if j >= 0 {
        assert(trim_end(s).last() == s[j]);
        if i > j {
            assert(is_white(s[j]));
        }
        assert(trim_start(s)[0] == s[i]);
        trim_cuts_between(s, i, j);
    } else if trim(s).len() > 0 {
        assert(trim_start(s).len() > 0) by {
            trim_end_leaves_none(trim_start(s));
        }
        assert(trim_start(s)[0] == s[i]);
        assert(is_white(s[i]));
    }
    (i, j)
}

/// The characters of a text that are no white space.
pub open spec fn inked(s: Seq<char>) -> Seq<char>
    decreases s.len(),
{
    if s.len() == 0 {
        seq![]
    } else if is_white(s.last()) {
        inked(s.drop_last())
    } else {
        inked(s.drop_last()).push(s.last())
    }
}

/// The ink of two texts in a row is that of the one and then that of the other.
pub proof fn ink_adds_up(a: Seq<char>, b: Seq<char>)
    ensures
        inked(a + b) == inked(a) + inked(b),
    decreases b.len(),
{
    if b.len() == 0 {
        assert(a + b =~= a);
        assert(inked(a) + inked(b) =~= inked(a));
    } else {
        ink_adds_up(a, b.drop_last());
        assert((a + b).drop_last() =~= a + b.drop_last());
        assert(inked(a + b) =~= inked(a) + inked(b));
    }
}

/// White space has no ink.
pub proof fn white_space_has_no_ink(s: Seq<char>)
    requires
        forall|i: int| 0 <= i < s.len() ==> is_white(#[trigger] s[i]),
    ensures
        inked(s).len() == 0,
    decreases s.len(),
{
    if s.len() > 0 {
        assert(is_white(s[s.len() - 1]));
        white_space_has_no_ink(s.drop_last());
    }
}

/// Trimming takes nothing but white space.
pub proof fn trimming_keeps_the_ink(s: Seq<char>)
    ensures
        inked(trim(s)) == inked(s),
{
    let (i, j) = trimming_finds_the_text(s);
    if trim_end(s).len() > 0 {
        let before = s.take(i);
        let behind = s.skip(j + 1);
        white_space_has_no_ink(before);
        assert forall|k: int| 0 <= k < behind.len() implies is_white(#[trigger] behind[k]) by {
            assert(behind[k] == s[j + 1 + k]);
        }
        white_space_has_no_ink(behind);
        ink_adds_up(before, trim(s));
        ink_adds_up(before + trim(s), behind);
        assert(before + trim(s) + behind =~= s);
        assert(inked(s) =~= inked(trim(s)));
    } else {
        trim_end_drops_white(s);
        white_space_has_no_ink(s);
        assert(trim(s) =~= Seq::empty());
        assert(inked(s) =~= Seq::empty());
    }
}

// ── Paths ────────────────────────────────────────────────────────────────────

/// A name below a directory, with a separator between them unless the directory ends in one.
pub open spec fn below(dir: Seq<char>, name: Seq<char>, separator: char) -> Seq<char> {
    if dir.len() == 0 || dir.last() == separator || dir.last() == '/' {
        dir + name
    } else {
        dir.push(separator) + name
    }
}

/// A name below a directory.
pub fn path_below(dir: String, name: &str, separator: char) -> (r: String)
    ensures
        r@ == below(dir@, name@, separator),
{
    let mut path = dir;
    let chars = chars_of(path.as_str());
    let n: usize = chars.len();
    if n > 0 && chars[n - 1] != separator && chars[n - 1] != '/' {
        path.push(separator);
    }
    path.append(name);
    path
}

// ── Searching ────────────────────────────────────────────────────────────────

/// Whether `pat` stands at position `at` of `s`.
pub open spec fn occurs_at(s: Seq<char>, pat: Seq<char>, at: int) -> bool {
    0 <= at && at + pat.len() <= s.len() && s.subrange(at, at + pat.len()) == pat
}

/// The first position at or after `from` where `pat` stands in `s`.
pub open spec fn find_from(s: Seq<char>, pat: Seq<char>, from: int) -> Option<int>
    decreases s.len() + 1 - from,
{
    if from + pat.len() > s.len() {
        None
    } else if occurs_at(s, pat, from) {
        Some(from)
    } else {
        find_from(s, pat, from + 1)
    }
}

/// The first position where `pat` stands in `s`.
pub open spec fn find(s: Seq<char>, pat: Seq<char>) -> Option<int> {
    find_from(s, pat, 0)
}

/// Whether `pat` stands anywhere in `s`.
pub open spec fn has(s: Seq<char>, pat: Seq<char>) -> bool {
    exists|at: int| occurs_at(s, pat, at)
}

/// `find` gives the least position at which the pattern stands, and none only if there is none.
pub proof fn find_from_is_first(s: Seq<char>, pat: Seq<char>, from: int)
    requires
        0 <= from,
    ensures
        match find_from(s, pat, from) {
            Some(at) => from <= at && occurs_at(s, pat, at) && forall|k: int|
                from <= k < at ==> !occurs_at(s, pat, k),
            None => forall|k: int| from <= k ==> !occurs_at(s, pat, k),
        },
    decreases s.len() + 1 - from,
{
    if from + pat.len() <= s.len() && !occurs_at(s, pat, from) {
        find_from_is_first(s, pat, from + 1);
    }
}

/// Whether `pat` stands at position `at` of `s`.
pub fn stands_at(s: &[char], pat: &[char], at: usize) -> (r: bool)
    requires
        at + pat@.len() <= s@.len(),
    ensures
        r == occurs_at(s@, pat@, at as int),
{
    let len: usize = s.len();
    let mut i: usize = 0;
    while i < pat.len()
        invariant
            i <= pat@.len(),
            at + pat@.len() <= len,
            len == s@.len(),
            forall|k: int| 0 <= k < i ==> s@[at + k] == pat@[k],
        decreases pat.len() - i,
    {
        if s[at + i] != pat[i] {
            proof {
                assert(s@.subrange(at as int, at + pat@.len())[i as int] != pat@[i as int]);
            }
            return false;
        }
        i += 1;
    }
    proof {
        assert(s@.subrange(at as int, at + pat@.len()) == pat@);
    }
    true
}

/// The first position where `pat` stands in `s`.
pub fn position_of(s: &[char], pat: &[char]) -> (r: Option<usize>)
    ensures
        match r {
            Some(at) => find(s@, pat@) == Some(at as int) && at + pat@.len() <= s@.len(),
            None => find(s@, pat@) is None,
        },
{
    let mut at: usize = 0;
    while at <= s.len() && pat.len() <= s.len() - at
        invariant
            at <= s@.len(),
            find(s@, pat@) == find_from(s@, pat@, at as int),
        decreases s.len() - at,
    {
        if stands_at(s, pat, at) {
            return Some(at);
        }
        if at == s.len() {
            proof {
                assert(find_from(s@, pat@, at + 1) is None);
            }
            return None;
        }
        at += 1;
    }
    None
}

/// Whether `pat` stands anywhere in `s`.
pub fn contains_text(s: &str, pat: &str) -> (r: bool)
    ensures
        r == has(s@, pat@),
{
    let hay = chars_of(s);
    let needle = chars_of(pat);
    proof {
        find_from_is_first(s@, pat@, 0);
    }
    position_of(hay.as_slice(), needle.as_slice()).is_some()
}

// ── Splitting and joining ────────────────────────────────────────────────────

/// The pieces of `s` between the copies of `sep`; always at least one.
pub open spec fn split(s: Seq<char>, sep: char) -> Seq<Seq<char>>
    decreases s.len(),
{
    if s.len() == 0 {
        seq![Seq::empty()]
    } else {
        let before = split(s.drop_last(), sep);
        if s.last() == sep {
            before.push(Seq::empty())
        } else {
            before.drop_last().push(before.last().push(s.last()))
        }
    }
}

/// The pieces in order, with `sep` between each two.
pub open spec fn join(pieces: Seq<Seq<char>>, sep: Seq<char>) -> Seq<char>
    decreases pieces.len(),
{
    if pieces.len() == 0 {
        Seq::empty()
    } else if pieces.len() == 1 {
        pieces[0]
    } else {
        join(pieces.drop_last(), sep) + sep + pieces.last()
    }
}

/// The pieces of two texts with a separator between them are those of the one and then those of
/// the other.
pub proof fn splitting_two_texts(a: Seq<char>, b: Seq<char>, sep: char)
    ensures
        split(a.push(sep) + b, sep) == split(a, sep) + split(b, sep),
    decreases b.len(),
{
    let s = a.push(sep) + b;
    if b.len() == 0 {
        assert(s =~= a.push(sep));
        assert(s.drop_last() =~= a);
        assert(split(s, sep) =~= split(a, sep) + split(b, sep));
    } else {
        splitting_two_texts(a, b.drop_last(), sep);
        split_is_nonempty(b.drop_last(), sep);
        assert(s.drop_last() =~= a.push(sep) + b.drop_last());
        assert(s.last() == b.last());
        assert(split(s, sep) =~= split(a, sep) + split(b, sep));
    }
}

/// Two lists of pieces joined as one are the one joined, a separator, and the other joined.
pub proof fn joining_two_lists(a: Seq<Seq<char>>, b: Seq<Seq<char>>, sep: Seq<char>)
    requires
        a.len() > 0,
        b.len() > 0,
    ensures
        join(a + b, sep) == join(a, sep) + sep + join(b, sep),
    decreases b.len(),
{
    let all = a + b;
    assert(all.last() == b.last());
    if b.len() == 1 {
        assert(all.drop_last() =~= a);
    } else {
        joining_two_lists(a, b.drop_last(), sep);
        assert(all.drop_last() =~= a + b.drop_last());
        assert(join(all, sep) =~= join(a, sep) + sep + join(b, sep));
    }
}

/// The views of a list of strings.
pub open spec fn views(list: Seq<String>) -> Seq<Seq<char>> {
    list.map_values(|s: String| s@)
}

/// The view of an optional string.
pub open spec fn opt_view(o: Option<String>) -> Option<Seq<char>> {
    match o {
        Some(s) => Some(s@),
        None => None,
    }
}

/// Splitting gives at least one piece.
pub proof fn split_is_nonempty(s: Seq<char>, sep: char)
    ensures
        split(s, sep).len() >= 1,
    decreases s.len(),
{
    if s.len() > 0 {
        split_is_nonempty(s.drop_last(), sep);
    }
}

/// Joining the pieces with the separator gives the text back.
pub proof fn split_then_join(s: Seq<char>, sep: char)
    ensures
        join(split(s, sep), seq![sep]) == s,
    decreases s.len(),
{
    if s.len() > 0 {
        split_then_join(s.drop_last(), sep);
        split_is_nonempty(s.drop_last(), sep);
        let before = split(s.drop_last(), sep);
        if s.last() == sep {
            assert(before.push(Seq::empty()).drop_last() == before);
            assert(s == s.drop_last().push(sep));
            assert(join(split(s, sep), seq![sep]) == s);
        } else {
            let grown = before.drop_last().push(before.last().push(s.last()));
            assert(grown.drop_last() == before.drop_last());
            assert(s == s.drop_last().push(s.last()));
            if before.len() == 1 {
                assert(grown[0] == s);
            } else {
                assert(join(grown, seq![sep]) == join(before, seq![sep]).push(s.last()));
            }
        }
    }
}

/// A text without the separator is its own only piece.
pub proof fn split_without_separator(s: Seq<char>, sep: char)
    requires
        forall|i: int| 0 <= i < s.len() ==> s[i] != sep,
    ensures
        split(s, sep) == seq![s],
    decreases s.len(),
{
    if s.len() == 0 {
        assert(s == Seq::<char>::empty());
    } else {
        split_without_separator(s.drop_last(), sep);
        assert(s.drop_last().push(s.last()) == s);
        assert(split(s, sep) == seq![s]);
    }
}

/// A text with one separator falls into the two texts around it.
pub proof fn split_with_one_separator(a: Seq<char>, b: Seq<char>, sep: char)
    requires
        forall|i: int| 0 <= i < a.len() ==> a[i] != sep,
        forall|i: int| 0 <= i < b.len() ==> b[i] != sep,
    ensures
        split(a.push(sep) + b, sep) == seq![a, b],
    decreases b.len(),
{
    let s = a.push(sep) + b;
    if b.len() == 0 {
        assert(b == Seq::<char>::empty());
        assert(s == a.push(sep));
        assert(s.drop_last() == a);
        split_without_separator(a, sep);
        assert(split(s, sep) == seq![a, b]);
    } else {
        assert(s.drop_last() == a.push(sep) + b.drop_last());
        split_with_one_separator(a, b.drop_last(), sep);
        assert(b.drop_last().push(b.last()) == b);
        assert(s.last() == b.last());
        assert(seq![a, b.drop_last()].drop_last() == seq![a]);
        assert(split(s, sep) == seq![a, b]);
    }
}

/// The pieces of `s` between the copies of `sep`.
pub fn pieces_of(s: &str, sep: char) -> (r: Vec<String>)
    ensures
        views(r@) == split(s@, sep),
{
    let mut done: Vec<String> = Vec::new();
    let mut current = String::new();
    proof {
        assert(s@.take(0) == Seq::<char>::empty());
        assert(views(done@).push(current@) == split(s@.take(0), sep));
    }
    for c in it: s.chars()
        invariant
            it.seq() == s@,
            views(done@).push(current@) == split(s@.take(it.index() as int), sep),
    {
        proof {
            let i = it.index() as int;
            assert(s@.take(i + 1).drop_last() == s@.take(i));
            assert(views(done@).push(current@).drop_last() == views(done@));
        }
        if c == sep {
            let ghost before = done@;
            let ghost piece = current;
            done.push(current);
            current = String::new();
            proof {
                assert(views(before.push(piece)) == views(before).push(piece@));
            }
        } else {
            current.push(c);
        }
    }
    proof {
        assert(s@.take(s@.len() as int) == s@);
        assert(views(done@.push(current)) == views(done@).push(current@));
    }
    done.push(current);
    done
}

/// Whether a list holds a text.
pub fn lists(list: &Vec<String>, text: &str) -> (r: bool)
    ensures
        r == views(list@).contains(text@),
{
    let ghost all = views(list@);
    let n: usize = list.len();
    let mut i: usize = 0;
    while i < n
        invariant
            i <= n,
            n == list.len(),
            all == views(list@),
            forall|j: int| 0 <= j < i ==> all[j] != text@,
        decreases n - i,
    {
        if same_text(list[i].as_str(), text) {
            proof {
                assert(all[i as int] == text@);
            }
            return true;
        }
        i = i + 1;
    }
    false
}

/// The strings in order, with `sep` between each two.
pub fn joined_with(list: &Vec<String>, sep: &str) -> (r: String)
    ensures
        r@ == join(views(list@), sep@),
{
    let mut out = String::new();
    let mut i: usize = 0;
    proof {
        assert(views(list@).take(0) == Seq::<Seq<char>>::empty());
    }
    while i < list.len()
        invariant
            i <= list@.len(),
            out@ == join(views(list@).take(i as int), sep@),
        decreases list.len() - i,
    {
        proof {
            assert(views(list@).take(i + 1).drop_last() == views(list@).take(i as int));
            assert(views(list@).take(i + 1).last() == list@[i as int]@);
        }
        if i > 0 {
            out.append(sep);
        }
        out.append(list[i].as_str());
        i += 1;
    }
    proof {
        assert(views(list@).take(list@.len() as int) == views(list@));
    }
    out
}

// ── Numbers ──────────────────────────────────────────────────────────────────

/// The digit that stands for `n`.
pub open spec fn digit(n: nat) -> char {
    ((48 + n) as u8) as char
}

/// `n` in decimal notation.
pub open spec fn decimal(n: nat) -> Seq<char>
    decreases n,
{
    if n < 10 {
        seq![digit(n)]
    } else {
        decimal(n / 10).push(digit(n % 10))
    }
}

/// `n` in decimal notation, with a sign if it is negative.
pub open spec fn signed_decimal(n: int) -> Seq<char> {
    if n < 0 {
        seq!['-'] + decimal((-n) as nat)
    } else {
        decimal(n as nat)
    }
}

/// `n` in decimal notation with at least two digits.
pub open spec fn two_digits(n: nat) -> Seq<char> {
    if n < 10 {
        seq!['0'] + decimal(n)
    } else {
        decimal(n)
    }
}

/// Writes `n` in decimal notation.
pub fn decimal_of(n: u64) -> (r: String)
    ensures
        r@ == decimal(n as nat),
    decreases n,
{
    let mut out = if n < 10 {
        String::new()
    } else {
        decimal_of(n / 10)
    };
    let d: u8 = (n % 10) as u8;
    out.push((48 + d) as char);
    proof {
        if n < 10 {
            assert(out@ == seq![digit(n as nat)]);
        }
    }
    out
}

/// Writes a signed number in decimal notation.
pub fn signed_decimal_of(n: i64) -> (r: String)
    ensures
        r@ == signed_decimal(n as int),
{
    if n < 0 {
        let mut out = String::new();
        out.push('-');
        let magnitude: u64 = if n == i64::MIN {
            9223372036854775808
        } else {
            (-n) as u64
        };
        out.append(decimal_of(magnitude).as_str());
        proof {
            assert(seq!['-'] == Seq::<char>::empty().push('-'));
        }
        out
    } else {
        decimal_of(n as u64)
    }
}

/// Writes `n` with at least two digits.
pub fn two_digits_of(n: u64) -> (r: String)
    ensures
        r@ == two_digits(n as nat),
{
    let mut out = String::new();
    if n < 10 {
        out.push('0');
    }
    out.append(decimal_of(n).as_str());
    proof {
        assert(seq!['0'] == Seq::<char>::empty().push('0'));
    }
    out
}

/// Whether a text consists of the digits from 0 to 9.
pub open spec fn is_number(s: Seq<char>) -> bool {
    s.len() > 0 && forall|i: int| 0 <= i < s.len() ==> '0' <= #[trigger] s[i] <= '9'
}

/// The number that digits stand for: each place counts ten times the one behind it.
pub open spec fn number_in(s: Seq<char>) -> int
    decreases s.len(),
{
    if s.len() == 0 {
        0
    } else {
        number_in(s.drop_last()) * 10 + (s.last() as int - '0' as int)
    }
}

/// What is written in decimal notation reads back as the number, and has no needless nought in
/// front.
pub proof fn decimals_read_back(n: nat)
    ensures
        is_number(decimal(n)),
        number_in(decimal(n)) == n,
        n > 0 ==> decimal(n)[0] != '0',
        n < 10 ==> decimal(n).len() == 1,
        10 <= n < 100 ==> decimal(n).len() == 2,
        n >= 10 ==> decimal(n).len() > 1,
    decreases n,
{
    let s = decimal(n);
    if n < 10 {
        assert(s.drop_last() =~= Seq::empty());
        assert(number_in(s.drop_last()) == 0);
    } else {
        decimals_read_back(n / 10);
        assert(s.drop_last() =~= decimal(n / 10));
        assert(s[0] == decimal(n / 10)[0]);
        assert(s.last() as int == 48 + n % 10);
    }
}

/// With at least two digits a number reads back too.
pub proof fn two_digits_read_back(n: nat)
    ensures
        is_number(two_digits(n)),
        number_in(two_digits(n)) == n,
        two_digits(n).len() >= 2,
        n < 100 ==> two_digits(n).len() == 2,
        n >= 100 ==> two_digits(n)[0] != '0',
{
    decimals_read_back(n);
    let s = two_digits(n);
    if n < 10 {
        assert(s.drop_last() =~= seq!['0']);
        assert(seq!['0'].drop_last() =~= Seq::<char>::empty());
        assert(number_in(seq!['0'].drop_last()) == 0);
        assert(number_in(seq!['0']) == 0);
        assert(decimal(n).drop_last() =~= Seq::<char>::empty());
        assert(s.last() == decimal(n).last());
    }
}

/// A signed number reads back, the sign in front of its magnitude.
pub proof fn signed_decimals_read_back(n: int)
    ensures
        n >= 0 ==> is_number(signed_decimal(n)) && number_in(signed_decimal(n)) == n,
        n < 0 ==> signed_decimal(n).len() > 0 && signed_decimal(n)[0] == '-' && is_number(
            signed_decimal(n).drop_first(),
        ) && number_in(signed_decimal(n).drop_first()) == -n,
{
    if n < 0 {
        decimals_read_back((-n) as nat);
        assert(signed_decimal(n).drop_first() =~= decimal((-n) as nat));
    } else {
        decimals_read_back(n as nat);
    }
}

// ── What the words above amount to ───────────────────────────────────────────

/// White space is what Unicode lists as such, and nothing else.
pub proof fn white_space_is_what_unicode_lists(c: char)
    ensures
        is_white(c) <==> seq![
            '\u{9}', '\u{a}', '\u{b}', '\u{c}', '\u{d}', ' ', '\u{85}', '\u{a0}', '\u{1680}',
            '\u{2000}', '\u{2001}', '\u{2002}', '\u{2003}', '\u{2004}', '\u{2005}', '\u{2006}',
            '\u{2007}', '\u{2008}', '\u{2009}', '\u{200a}', '\u{2028}', '\u{2029}', '\u{202f}',
            '\u{205f}', '\u{3000}',
        ].contains(c),
{
    let list = seq![
        '\u{9}', '\u{a}', '\u{b}', '\u{c}', '\u{d}', ' ', '\u{85}', '\u{a0}', '\u{1680}',
        '\u{2000}', '\u{2001}', '\u{2002}', '\u{2003}', '\u{2004}', '\u{2005}', '\u{2006}',
        '\u{2007}', '\u{2008}', '\u{2009}', '\u{200a}', '\u{2028}', '\u{2029}', '\u{202f}',
        '\u{205f}', '\u{3000}',
    ];
    assert(list.len() == 25);
    if is_white(c) {
        let n = c as int;
        let i = if n <= 0x0D {
            n - 9
        } else if n == 0x20 {
            5
        } else if n == 0x85 {
            6
        } else if n == 0xA0 {
            7
        } else if n == 0x1680 {
            8
        } else if n <= 0x200A {
            n - 0x2000 + 9
        } else if n == 0x2028 {
            20
        } else if n == 0x2029 {
            21
        } else if n == 0x202F {
            22
        } else if n == 0x205F {
            23
        } else {
            24
        };
        assert(list[i] == c);
    }
}

/// ASCII letters and digits go by their codes, and only the upper-case letters have another form in
/// lower case.
pub proof fn ascii_goes_by_its_codes(c: char)
    ensures
        is_ascii_alphanumeric(c) <==> 48 <= c as int <= 57 || 65 <= c as int <= 90 || 97 <= c as int
            <= 122,
        65 <= c as int <= 90 ==> ascii_lower(c) as int == c as int + 32,
        !(65 <= c as int <= 90) ==> ascii_lower(c) == c,
        ascii_lower(ascii_lower(c)) == ascii_lower(c),
{
}

/// A text in lower case is as long, and lower-casing goes character by character.
pub proof fn lower_case_goes_by_characters(s: Seq<char>, i: int)
    requires
        0 <= i < s.len(),
    ensures
        ascii_lower_text(s).len() == s.len(),
        ascii_lower_text(s)[i] == ascii_lower(s[i]),
{
}

/// A path below a directory begins with the directory and ends with the name; between the two stands
/// one separator, which is added only where the directory does not end with one.
pub proof fn a_path_leads_below_its_directory(dir: Seq<char>, name: Seq<char>, separator: char)
    ensures
        ({
            let path = below(dir, name, separator);
            let rest = path.skip(dir.len() as int);
            &&& path.len() >= dir.len()
            &&& path.take(dir.len() as int) == dir
            &&& rest == name || rest == seq![separator] + name
            &&& rest == name <==> dir.len() == 0 || dir.last() == separator || dir.last() == '/'
        }),
{
    let path = below(dir, name, separator);
    assert(path.take(dir.len() as int) =~= dir);
    if dir.len() == 0 || dir.last() == separator || dir.last() == '/' {
        assert(path.skip(dir.len() as int) =~= name);
    } else {
        assert(path.skip(dir.len() as int) =~= seq![separator] + name);
        assert(path.skip(dir.len() as int).len() == name.len() + 1);
    }
}

/// Cutting copies of a character off the end cuts all of them and nothing else.
pub proof fn copies_at_the_end_are_cut(s: Seq<char>, c: char)
    ensures
        ({
            let rest = trim_end_of(s, c);
            &&& rest.len() <= s.len()
            &&& s.take(rest.len() as int) == rest
            &&& forall|i: int| rest.len() <= i < s.len() ==> s[i] == c
            &&& rest.len() > 0 ==> rest.last() != c
        }),
    decreases s.len(),
{
    if s.len() > 0 && s.last() == c {
        let t = s.drop_last();
        copies_at_the_end_are_cut(t, c);
        let rest = trim_end_of(t, c);
        assert(s.take(rest.len() as int) =~= t.take(rest.len() as int));
        assert forall|i: int| rest.len() <= i < s.len() implies s[i] == c by {
            if i < t.len() {
                assert(t[i] == s[i]);
            }
        }
    } else {
        assert(s.take(s.len() as int) =~= s);
    }
}

/// A text stands in another exactly where the other can be taken apart around it.
pub proof fn what_stands_in_a_text_can_be_cut_out(s: Seq<char>, pat: Seq<char>, at: int)
    requires
        0 <= at <= s.len(),
    ensures
        occurs_at(s, pat, at) <==> at + pat.len() <= s.len() && s == s.take(at) + pat + s.skip(
            at + pat.len(),
        ),
        occurs_at(s, pat, at) ==> has(s, pat),
{
    if at + pat.len() <= s.len() {
        let mid = s.subrange(at, at + pat.len());
        assert(s =~= s.take(at) + mid + s.skip(at + pat.len()));
        if s == s.take(at) + pat + s.skip(at + pat.len()) {
            assert forall|i: int| 0 <= i < pat.len() implies mid[i] == pat[i] by {
                assert((s.take(at) + pat + s.skip(at + pat.len()))[at + i] == pat[i]);
            }
            assert(mid =~= pat);
        }
    }
}

/// A text is found in another exactly where it stands between two others.
pub proof fn a_text_is_found_between_others(a: Seq<char>, pat: Seq<char>, b: Seq<char>)
    ensures
        has(a + pat + b, pat),
{
    let s = a + pat + b;
    assert(s.subrange(a.len() as int, (a.len() + pat.len()) as int) =~= pat);
    assert(occurs_at(s, pat, a.len() as int));
}

/// Optional texts are alike where both are missing, or both are there and read the same; a default
/// stands in only for a missing one.
pub proof fn optional_texts_read_alike(a: Option<String>, b: Option<String>, default: Seq<char>)
    ensures
        opt_view(a) == opt_view(b) <==> (a is None <==> b is None) && (a is Some && b is Some
            ==> a->0@ == b->0@),
        opt_view(a) is None <==> a is None,
        a matches Some(text) ==> opt_view(a) == Some(text@) && or_text(a, default) == text@,
        a is None ==> or_text(a, default) == default,
{
}

/// Lists of texts are alike where they are as long and read the same, text by text.
pub proof fn lists_of_texts_read_alike(a: Seq<String>, b: Seq<String>)
    ensures
        views(a) == views(b) <==> a.len() == b.len() && forall|i: int|
            0 <= i < a.len() ==> #[trigger] a[i]@ == b[i]@,
        views(a).len() == a.len(),
        forall|i: int| 0 <= i < a.len() ==> #[trigger] views(a)[i] == a[i]@,
{
    if a.len() == b.len() && forall|i: int| 0 <= i < a.len() ==> #[trigger] a[i]@ == b[i]@ {
        assert(views(a) =~= views(b));
    }
    if views(a) == views(b) {
        assert(views(a).len() == views(b).len());
        assert forall|i: int| 0 <= i < a.len() implies #[trigger] a[i]@ == b[i]@ by {
            assert(views(a)[i] == views(b)[i]);
        }
    }
}

}
