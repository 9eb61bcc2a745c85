//! Text as sequences of characters: the small vocabulary that the parsers and
//! labels of the other modules are written in.

use vstd::prelude::*;

verus! {

/// `String::push` appends one character.
pub assume_specification[ String::push ](s: &mut String, ch: char)
    ensures
        final(s)@ == old(s)@.push(ch),
;

/// `String::pop` removes the last character and returns it; None where there is
/// none.
pub assume_specification[ String::pop ](s: &mut String) -> (r: Option<char>)
    ensures
        match r {
            Some(c) => old(s)@.len() > 0 && c == old(s)@.last() && final(s)@ == old(
                s,
            )@.drop_last(),
            None => old(s)@.len() == 0 && final(s)@ == old(s)@,
        },
;

// ---------------------------------------------------------------------------
// Characters
// ---------------------------------------------------------------------------

/// The characters with the Unicode property `White_Space`.
pub open spec fn is_space(c: char) -> bool {
    let n = c as u32;
    (0x09 <= n && n <= 0x0D) || n == 0x20 || n == 0x85 || n == 0xA0 || n == 0x1680 || (0x2000 <= n
        && n <= 0x200A) || n == 0x2028 || n == 0x2029 || n == 0x202F || n == 0x205F || n == 0x3000
}

/// Whether `c` has the Unicode property `White_Space`.
pub fn space(c: char) -> (r: bool)
    ensures
        r == is_space(c),
{
    let n: u32 = c as u32;
    (0x09 <= n && n <= 0x0D) || n == 0x20 || n == 0x85 || n == 0xA0 || n == 0x1680 || (0x2000 <= n
        && n <= 0x200A) || n == 0x2028 || n == 0x2029 || n == 0x202F || n == 0x205F || n == 0x3000
}

/// `A`..`Z` become `a`..`z`; every other character stays.
pub open spec fn lower(c: char) -> char {
    if 'A' <= c && c <= 'Z' {
        ((c as u8) + 32) as u8 as char
    } else {
        c
    }
}

/// The ASCII lower case of one character.
pub fn lower_char(c: char) -> (r: char)
    ensures
        r == lower(c),
{
    if 'A' <= c && c <= 'Z' {
        ((c as u8) + 32) as char
    } else {
        c
    }
}

/// `a`..`z` become `A`..`Z`; every other character stays.
pub open spec fn upper(c: char) -> char {
    if 'a' <= c && c <= 'z' {
        ((c as u8) - 32) as u8 as char
    } else {
        c
    }
}

/// The ASCII upper case of one character.
pub fn upper_char(c: char) -> (r: char)
    ensures
        r == upper(c),
{
    if 'a' <= c && c <= 'z' {
        ((c as u8) - 32) as char
    } else {
        c
    }
}

/// ASCII letters.
pub open spec fn is_letter(c: char) -> bool {
    ('a' <= c && c <= 'z') || ('A' <= c && c <= 'Z')
}

/// ASCII digits.
pub open spec fn is_digit(c: char) -> bool {
    '0' <= c && c <= '9'
}

/// ASCII letters and digits.
pub open spec fn is_alnum(c: char) -> bool {
    is_letter(c) || is_digit(c)
}

/// Whether `c` is an ASCII letter.
pub fn letter(c: char) -> (r: bool)
    ensures
        r == is_letter(c),
{
    ('a' <= c && c <= 'z') || ('A' <= c && c <= 'Z')
}

/// Whether `c` is an ASCII letter or digit.
pub fn alnum(c: char) -> (r: bool)
    ensures
        r == is_alnum(c),
{
    letter(c) || ('0' <= c && c <= '9')
}

// ---------------------------------------------------------------------------
// Strings and their characters
// ---------------------------------------------------------------------------

/// The characters of each string of a list.
pub open spec fn views(list: Seq<String>) -> Seq<Seq<char>> {
    Seq::new(list.len(), |i: int| list[i]@)
}

pub proof fn lemma_views_push(list: Seq<String>, s: String)
    ensures
        views(list.push(s)) == views(list).push(s@),
{
    assert(views(list.push(s)) =~= views(list).push(s@));
}

/// The characters of `s`, in order.
pub fn chars_of(s: &str) -> (r: Vec<char>)
    ensures
        r@ == s@,
{
    let mut out: Vec<char> = Vec::new();
    for c in it: s.chars()
        invariant
            it.seq() == s@,
            out@ == s@.take(it.index() as int),
    {
        proof {
            assert(s@.take(it.index() + 1) =~= s@.take(it.index() as int).push(c));
        }
        out.push(c);
    }
    assert(s@.take(s@.len() as int) =~= s@);
    out
}

/// The characters `from..to` of `chars` as a string.
pub fn string_of(chars: &Vec<char>, from: usize, to: usize) -> (r: String)
    requires
        from <= to <= chars.len(),
    ensures
        r@ == chars@.subrange(from as int, to as int),
{
    let mut out = String::new();
    let mut i: usize = from;
    assert(out@ =~= chars@.subrange(from as int, i as int));
    while i < to
        invariant
            from <= i <= to <= chars.len(),
            out@ == chars@.subrange(from as int, i as int),
        decreases to - i,
    {
        out.push(chars[i]);
        i += 1;
        assert(chars@.subrange(from as int, i as int) =~= chars@.subrange(
            from as int,
            i - 1,
        ).push(chars@[i - 1]));
    }
    out
}

/// Whether two strings have the same characters.
pub fn same(a: &str, b: &str) -> (r: bool)
    ensures
        r == (a@ == b@),
{
    a.to_owned() == b.to_owned()
}

// ---------------------------------------------------------------------------
// Trimming
// ---------------------------------------------------------------------------

/// `s` without the characters in front that satisfy `p`.
pub open spec fn trim_front(s: Seq<char>, p: spec_fn(char) -> bool) -> Seq<char>
    decreases s.len(),
{
    if s.len() > 0 && p(s[0]) {
        trim_front(s.drop_first(), p)
    } else {
        s
    }
}

/// `s` without the characters at the end that satisfy `p`.
pub open spec fn trim_back(s: Seq<char>, p: spec_fn(char) -> bool) -> Seq<char>
    decreases s.len(),
{
    if s.len() > 0 && p(s.last()) {
        trim_back(s.drop_last(), p)
    } else {
        s
    }
}

/// White space.
pub open spec fn spaces() -> spec_fn(char) -> bool {
    |c: char| is_space(c)
}

/// One character.
pub open spec fn only(d: char) -> spec_fn(char) -> bool {
    |c: char| c == d
}

/// Any character of `set`.
pub open spec fn any_of(set: Seq<char>) -> spec_fn(char) -> bool {
    |c: char| set.contains(c)
}

/// `s` without the white space around it.
pub open spec fn trimmed(s: Seq<char>) -> Seq<char> {
    trim_back(trim_front(s, spaces()), spaces())
}

/// `s` without the characters of `set` around it.
pub open spec fn trimmed_of(s: Seq<char>, set: Seq<char>) -> Seq<char> {
    trim_back(trim_front(s, any_of(set)), any_of(set))
}

pub proof fn lemma_trim_front(s: Seq<char>, p: spec_fn(char) -> bool, n: int)
    requires
        0 <= n <= s.len(),
        forall|i: int| 0 <= i < n ==> p(s[i]),
        n < s.len() ==> !p(s[n]),
    ensures
        trim_front(s, p) == s.subrange(n, s.len() as int),
    decreases n,
{
    if n == 0 {
        assert(s.subrange(0, s.len() as int) =~= s);
    } else {
        let t = s.drop_first();
        assert forall|i: int| 0 <= i < n - 1 implies p(t[i]) by {
            assert(p(s[i + 1]));
        }
        lemma_trim_front(t, p, n - 1);
        assert(t.subrange(n - 1, t.len() as int) =~= s.subrange(n, s.len() as int));
    }
}

pub proof fn lemma_trim_back(s: Seq<char>, p: spec_fn(char) -> bool, n: int)
    requires
        0 <= n <= s.len(),
        forall|i: int| n <= i < s.len() ==> p(s[i]),
        0 < n ==> !p(s[n - 1]),
    ensures
        trim_back(s, p) == s.subrange(0, n),
    decreases s.len() - n,
{
    if n == s.len() {
        assert(s.subrange(0, s.len() as int) =~= s);
    } else {
        let t = s.drop_last();
        lemma_trim_back(t, p, n);
        assert(t.subrange(0, n) =~= s.subrange(0, n));
    }
}

/// Whether `c` is one of the characters of `set`.
pub fn among(set: &Vec<char>, c: char) -> (r: bool)
    ensures
        r == set@.contains(c),
{
    let mut i: usize = 0;
    while i < set.len()
        invariant
            i <= set.len(),
            forall|k: int| 0 <= k < i ==> set[k] != c,
        decreases set.len() - i,
    {
        if set[i] == c {
            return true;
        }
        i += 1;
    }
    false
}

/// `str::trim`: `s` without the white space around it.
pub fn trim(s: &str) -> (r: String)
    ensures
        r@ == trimmed(s@),
{
    let chars = chars_of(s);
    let mut from: usize = 0;
    while from < chars.len() && space(chars[from])
        invariant
            from <= chars.len(),
            forall|i: int| 0 <= i < from ==> is_space(chars[i]),
        decreases chars.len() - from,
    {
        from += 1;
    }
    proof {
        lemma_trim_front(s@, spaces(), from as int);
    }
    let mut to: usize = chars.len();
    while to > from && space(chars[to - 1])
        invariant
            from <= to <= chars.len(),
            forall|i: int| to <= i < chars.len() ==> is_space(chars[i]),
        decreases to,
    {
        to -= 1;
    }
    proof {
        let t = s@.subrange(from as int, s@.len() as int);
        assert forall|i: int| to - from <= i < t.len() implies spaces()(t[i]) by {
            assert(is_space(chars@[i + from]));
        }
        lemma_trim_back(t, spaces(), to - from);
        assert(t.subrange(0, to - from) =~= s@.subrange(from as int, to as int));
    }
    string_of(&chars, from, to)
}

/// `str::trim_matches` with a set of characters: `s` without the characters of
/// `set` around it.
pub fn trim_matches(s: &str, set: &str) -> (r: String)
    ensures
        r@ == trimmed_of(s@, set@),
{
    let chars = chars_of(s);
    let set_chars = chars_of(set);
    let mut from: usize = 0;
    while from < chars.len() && among(&set_chars, chars[from])
        invariant
            from <= chars.len(),
            forall|i: int| 0 <= i < from ==> set_chars@.contains(chars[i]),
        decreases chars.len() - from,
    {
        from += 1;
    }
    proof {
        lemma_trim_front(s@, any_of(set@), from as int);
    }
    let mut to: usize = chars.len();
    while to > from && among(&set_chars, chars[to - 1])
        invariant
            from <= to <= chars.len(),
            forall|i: int| to <= i < chars.len() ==> set_chars@.contains(chars[i]),
        decreases to,
    {
        to -= 1;
    }
    proof {
        let t = s@.subrange(from as int, s@.len() as int);
        assert forall|i: int| to - from <= i < t.len() implies any_of(set@)(t[i]) by {
            assert(set@.contains(chars@[i + from]));
        }
        lemma_trim_back(t, any_of(set@), to - from);
        assert(t.subrange(0, to - from) =~= s@.subrange(from as int, to as int));
    }
    string_of(&chars, from, to)
}

/// `str::trim_start_matches` with a set of characters.
pub fn trim_start_matches(s: &str, set: &str) -> (r: String)
    ensures
        r@ == trim_front(s@, any_of(set@)),
{
    let chars = chars_of(s);
    let set_chars = chars_of(set);
    let mut from: usize = 0;
    while from < chars.len() && among(&set_chars, chars[from])
        invariant
            from <= chars.len(),
            forall|i: int| 0 <= i < from ==> set_chars@.contains(chars[i]),
        decreases chars.len() - from,
    {
        from += 1;
    }
    proof {
        lemma_trim_front(s@, any_of(set@), from as int);
    }
    string_of(&chars, from, chars.len())
}

// ---------------------------------------------------------------------------
// Searching
// ---------------------------------------------------------------------------

/// `part` stands in `s` at position `at`.
pub open spec fn occurs_at(s: Seq<char>, part: Seq<char>, at: int) -> bool {
    0 <= at && at + part.len() <= s.len() && s.subrange(at, at + part.len()) == part
}

/// `part` stands somewhere in `s`.
pub open spec fn occurs(s: Seq<char>, part: Seq<char>) -> bool {
    exists|at: int| occurs_at(s, part, at)
}

pub open spec fn has_prefix(s: Seq<char>, part: Seq<char>) -> bool {
    occurs_at(s, part, 0)
}

pub open spec fn has_suffix(s: Seq<char>, part: Seq<char>) -> bool {
    occurs_at(s, part, s.len() - part.len())
}

/// What follows the prefix `part`, where `s` starts with it.
pub open spec fn after_prefix(s: Seq<char>, part: Seq<char>) -> Option<Seq<char>> {
    if has_prefix(s, part) {
        Some(s.skip(part.len() as int))
    } else {
        None
    }
}

/// What precedes the suffix `part`, where `s` ends with it.
pub open spec fn before_suffix(s: Seq<char>, part: Seq<char>) -> Option<Seq<char>> {
    if has_suffix(s, part) {
        Some(s.take(s.len() - part.len()))
    } else {
        None
    }
}

/// The characters of an optional string.
pub open spec fn opt_view(s: Option<String>) -> Option<Seq<char>> {
    match s {
        Some(text) => Some(text@),
        None => None,
    }
}

/// Whether `part` stands in `s` at position `at`.
pub fn matches_at(s: &Vec<char>, part: &Vec<char>, at: usize) -> (r: bool)
    ensures
        r == occurs_at(s@, part@, at as int),
{
    if at > s.len() || part.len() > s.len() - at {
        return false;
    }
    let mut i: usize = 0;
    while i < part.len()
        invariant
            at + part.len() <= s.len(),
            i <= part.len(),
            forall|k: int| 0 <= k < i ==> s[at + k] == part[k],
        decreases part.len() - i,
    {
        if s[at + i] != part[i] {
            proof {
                assert(s@.subrange(at as int, at + part.len())[i as int] != part@[i as int]);
            }
            return false;
        }
        i += 1;
    }
    assert(s@.subrange(at as int, at + part.len()) =~= part@);
    true
}

/// `str::starts_with`.
pub fn starts_with(s: &str, part: &str) -> (r: bool)
    ensures
        r == has_prefix(s@, part@),
{
    matches_at(&chars_of(s), &chars_of(part), 0)
}

/// `str::ends_with`.
pub fn ends_with(s: &str, part: &str) -> (r: bool)
    ensures
        r == has_suffix(s@, part@),
{
    let chars = chars_of(s);
    let tail = chars_of(part);
    if tail.len() > chars.len() {
        return false;
    }
    matches_at(&chars, &tail, chars.len() - tail.len())
}

/// `str::contains` with a string.
pub fn contains(s: &str, part: &str) -> (r: bool)
    ensures
        r == occurs(s@, part@),
{
    let chars = chars_of(s);
    let piece = chars_of(part);
    if piece.len() > chars.len() {
        return false;
    }
    let last: usize = chars.len() - piece.len();
    let mut at: usize = 0;
    while !matches_at(&chars, &piece, at)
        invariant
            chars@ == s@,
            piece@ == part@,
            last == chars.len() - piece.len(),
            at <= last,
            forall|k: int| 0 <= k < at ==> !occurs_at(s@, part@, k),
        decreases last - at,
    {
        if at == last {
            return false;
        }
        at += 1;
    }
    true
}

/// `str::strip_prefix`.
pub fn strip_prefix(s: &str, part: &str) -> (r: Option<String>)
    ensures
        opt_view(r) == after_prefix(s@, part@),
{
    let chars = chars_of(s);
    let head = chars_of(part);
    if matches_at(&chars, &head, 0) {
        Some(string_of(&chars, head.len(), chars.len()))
    } else {
        None
    }
}

/// `str::strip_suffix`.
pub fn strip_suffix(s: &str, part: &str) -> (r: Option<String>)
    ensures
        opt_view(r) == before_suffix(s@, part@),
{
    let chars = chars_of(s);
    let tail = chars_of(part);
    if tail.len() > chars.len() {
        return None;
    }
    let at: usize = chars.len() - tail.len();
    if matches_at(&chars, &tail, at) {
        Some(string_of(&chars, 0, at))
    } else {
        None
    }
}

/// The first position from `from` on at which `part` stands in `s`.
pub open spec fn position(s: Seq<char>, part: Seq<char>, from: int) -> Option<int>
    decreases s.len() + 1 - from,
{
    if from < 0 || from + part.len() > s.len() {
        None
    } else if occurs_at(s, part, from) {
        Some(from)
    } else {
        position(s, part, from + 1)
    }
}

/// What precedes the first `part`, or all of `s`.
pub open spec fn head_of(s: Seq<char>, part: Seq<char>) -> Seq<char> {
    match position(s, part, 0) {
        Some(n) => s.take(n),
        None => s,
    }
}

/// What precedes and what follows the first `part`, where `s` has one.
pub open spec fn cut_at(s: Seq<char>, part: Seq<char>) -> Option<(Seq<char>, Seq<char>)> {
    match position(s, part, 0) {
        Some(n) => Some((s.take(n), s.skip(n + part.len()))),
        None => None,
    }
}

fn find(s: &Vec<char>, part: &Vec<char>) -> (r: Option<usize>)
    ensures
        match r {
            Some(n) => position(s@, part@, 0) == Some(n as int) && n + part.len() <= s.len(),
            None => position(s@, part@, 0) is None,
        },
{
    if part.len() > s.len() {
        return None;
    }
    let last: usize = s.len() - part.len();
    let mut at: usize = 0;
    while !matches_at(s, part, at)
        invariant
            last == s.len() - part.len(),
            at <= last,
            position(s@, part@, 0) == position(s@, part@, at as int),
        decreases last - at,
    {
        if at == last {
            assert(position(s@, part@, at + 1) is None);
            return None;
        }
        at += 1;
    }
    Some(at)
}

/// The first piece of `str::split` with a string.
pub fn split_head(s: &str, part: &str) -> (r: String)
    ensures
        r@ == head_of(s@, part@),
{
    let chars = chars_of(s);
    let piece = chars_of(part);
    match find(&chars, &piece) {
        Some(n) => {
            let r = string_of(&chars, 0, n);
            assert(r@ =~= s@.take(n as int));
            r
        },
        None => s.to_owned(),
    }
}

/// `str::split_once` with a string.
pub fn split_once_at(s: &str, part: &str) -> (r: Option<(String, String)>)
    ensures
        opt_pair_view(r) == cut_at(s@, part@),
{
    let chars = chars_of(s);
    let piece = chars_of(part);
    match find(&chars, &piece) {
        Some(n) => {
            let head = string_of(&chars, 0, n);
            let tail = string_of(&chars, n + piece.len(), chars.len());
            assert(head@ =~= s@.take(n as int));
            assert(tail@ =~= s@.skip(n + piece.len()));
            Some((head, tail))
        },
        None => None,
    }
}

/// Whether `s` has the character `c`: `str::contains` with one character.
pub fn contains_char(s: &str, c: char) -> (r: bool)
    ensures
        r == s@.contains(c),
{
    let chars = chars_of(s);
    among(&chars, c)
}

// ---------------------------------------------------------------------------
// Splitting
// ---------------------------------------------------------------------------

/// The pieces of `s` between the characters that satisfy `p`.
pub open spec fn split_by(s: Seq<char>, p: spec_fn(char) -> bool) -> Seq<Seq<char>>
    decreases s.len(),
{
    if s.len() == 0 {
        seq![Seq::<char>::empty()]
    } else {
        let before = split_by(s.drop_last(), p);
        if p(s.last()) {
            before.push(Seq::<char>::empty())
        } else {
            before.drop_last().push(before.last().push(s.last()))
        }
    }
}

pub proof fn lemma_split_by_nonempty(s: Seq<char>, p: spec_fn(char) -> bool)
    ensures
        split_by(s, p).len() > 0,
    decreases s.len(),
{
    if s.len() > 0 {
        lemma_split_by_nonempty(s.drop_last(), p);
    }
}

/// The pieces of `s` between the characters `d`.
pub open spec fn split_at_each(s: Seq<char>, d: char) -> Seq<Seq<char>> {
    split_by(s, only(d))
}

/// The words of `s`: its longest pieces without white space.
pub open spec fn words_of(s: Seq<char>) -> Seq<Seq<char>> {
    split_by(s, spaces()).filter(|w: Seq<char>| w.len() > 0)
}

/// A line without the carriage return that belongs to its line end.
pub open spec fn without_cr(line: Seq<char>) -> Seq<char> {
    if line.len() > 0 && line.last() == '\r' {
        line.drop_last()
    } else {
        line
    }
}

/// The lines of `s`: they end in `\n` or `\r\n`, and the last line end is
/// optional.
pub open spec fn lines_of(s: Seq<char>) -> Seq<Seq<char>> {
    let pieces = split_at_each(s, '\n');
    let full = pieces.drop_last().map_values(|l: Seq<char>| without_cr(l));
    if pieces.last().len() == 0 {
        full
    } else {
        full.push(pieces.last())
    }
}

/// `str::split` with one character.
pub fn split(s: &str, d: char) -> (r: Vec<String>)
    ensures
        views(r@) == split_at_each(s@, d),
        r.len() > 0,
{
    let mut out: Vec<String> = Vec::new();
    let mut piece = String::new();
    proof {
        assert(s@.take(0) =~= Seq::<char>::empty());
        assert(views(out@).push(piece@) =~= split_at_each(s@.take(0), d));
    }
    for c in it: s.chars()
        invariant
            it.seq() == s@,
            views(out@).push(piece@) == split_at_each(s@.take(it.index() as int), d),
    {
        proof {
            let i = it.index() as int;
            assert(s@.take(i + 1).drop_last() =~= s@.take(i));
            assert(s@.take(i + 1).last() == c);
            assert(views(out@).push(piece@).drop_last() =~= views(out@));
        }
        if c == d {
            let ghost before = out@;
            let done = piece;
            proof {
                lemma_views_push(before, done);
            }
            out.push(done);
            piece = String::new();
        } else {
            piece.push(c);
        }
    }
    proof {
        assert(s@.take(s@.len() as int) =~= s@);
        lemma_views_push(out@, piece);
    }
    out.push(piece);
    out
}

/// `str::split_whitespace`.
pub fn split_whitespace(s: &str) -> (r: Vec<String>)
    ensures
        views(r@) == words_of(s@),
{
    let ghost keep = |w: Seq<char>| w.len() > 0;
    let mut out: Vec<String> = Vec::new();
    let mut piece = String::new();
    let ghost mut pieces: Seq<Seq<char>> = Seq::empty();
    proof {
        assert(s@.take(0) =~= Seq::<char>::empty());
        assert(pieces.push(piece@) =~= split_by(s@.take(0), spaces()));
        assert(views(out@) =~= pieces.filter(keep)) by {
            reveal(Seq::filter);
        }
    }
    for c in it: s.chars()
        invariant
            it.seq() == s@,
            keep == (|w: Seq<char>| w.len() > 0),
            pieces.push(piece@) == split_by(s@.take(it.index() as int), spaces()),
            views(out@) == pieces.filter(keep),
    {
        proof {
            let i = it.index() as int;
            assert(s@.take(i + 1).drop_last() =~= s@.take(i));
            assert(s@.take(i + 1).last() == c);
            assert(pieces.push(piece@).drop_last() =~= pieces);
        }
        if space(c) {
            proof {
                reveal(Seq::filter);
                assert(pieces.push(piece@).drop_last() =~= pieces);
                lemma_views_push(out@, piece);
                pieces = pieces.push(piece@);
            }
            if !piece.as_str().is_empty() {
                out.push(piece);
            }
            piece = String::new();
        } else {
            piece.push(c);
        }
    }
    proof {
        assert(s@.take(s@.len() as int) =~= s@);
        reveal(Seq::filter);
        assert(pieces.push(piece@).drop_last() =~= pieces);
        lemma_views_push(out@, piece);
    }
    if !piece.as_str().is_empty() {
        out.push(piece);
    }
    out
}

/// `str::lines`.
pub fn lines(s: &str) -> (r: Vec<String>)
    ensures
        views(r@) == lines_of(s@),
{
    let pieces = split(s, '\n');
    let ghost parts = views(pieces@);
    let mut out: Vec<String> = Vec::new();
    let mut i: usize = 0;
    while i < pieces.len() - 1
        invariant
            pieces.len() > 0,
            parts == views(pieces@),
            i <= pieces.len() - 1,
            views(out@) == parts.take(i as int).map_values(|l: Seq<char>| without_cr(l)),
        decreases pieces.len() - i,
    {
        let chars = chars_of(pieces[i].as_str());
        let n: usize = chars.len();
        let to: usize = if n > 0 && chars[n - 1] == '\r' {
            n - 1
        } else {
            n
        };
        let line = string_of(&chars, 0, to);
        proof {
            assert(line@ =~= without_cr(parts[i as int]));
            assert(parts.take(i + 1) =~= parts.take(i as int).push(parts[i as int]));
            lemma_views_push(out@, line);
            assert(views(out@.push(line)) =~= parts.take(i + 1).map_values(
                |l: Seq<char>| without_cr(l),
            ));
        }
        out.push(line);
        i += 1;
    }
    assert(parts.take(i as int) =~= parts.drop_last());
    let last = pieces[i].clone();
    if !last.as_str().is_empty() {
        proof {
            lemma_views_push(out@, last);
        }
        out.push(last);
    }
    out
}

/// The position of the first `d` in `s`, or the length of `s`.
pub open spec fn first_of(s: Seq<char>, d: char) -> int
    decreases s.len(),
{
    if s.len() == 0 || s[0] == d {
        0
    } else {
        1 + first_of(s.drop_first(), d)
    }
}

pub proof fn lemma_first_of(s: Seq<char>, d: char, n: int)
    requires
        0 <= n <= s.len(),
        forall|i: int| 0 <= i < n ==> s[i] != d,
        n < s.len() ==> s[n] == d,
    ensures
        first_of(s, d) == n,
    decreases n,
{
    if n > 0 {
        let t = s.drop_first();
        assert forall|i: int| 0 <= i < n - 1 implies t[i] != d by {
            assert(s[i + 1] != d);
        }
        lemma_first_of(t, d, n - 1);
    }
}

/// What precedes and what follows the first `d`, where `s` has one.
pub open spec fn cut(s: Seq<char>, d: char) -> Option<(Seq<char>, Seq<char>)> {
    let n = first_of(s, d);
    if s.contains(d) {
        Some((s.take(n), s.skip(n + 1)))
    } else {
        None
    }
}

/// The characters of an optional pair of strings.
pub open spec fn opt_pair_view(p: Option<(String, String)>) -> Option<(Seq<char>, Seq<char>)> {
    match p {
        Some((a, b)) => Some((a@, b@)),
        None => None,
    }
}

/// `str::split_once` with one character.
pub fn split_once(s: &str, d: char) -> (r: Option<(String, String)>)
    ensures
        opt_pair_view(r) == cut(s@, d),
{
    let chars = chars_of(s);
    let mut n: usize = 0;
    while n < chars.len() && chars[n] != d
        invariant
            n <= chars.len(),
            forall|i: int| 0 <= i < n ==> chars[i] != d,
        decreases chars.len() - n,
    {
        n += 1;
    }
    proof {
        lemma_first_of(s@, d, n as int);
    }
    if n < chars.len() {
        assert(s@[n as int] == d);
        Some((string_of(&chars, 0, n), string_of(&chars, n + 1, chars.len())))
    } else {
        None
    }
}

/// The position of the last `d` in `s`, or -1.
pub open spec fn last_of(s: Seq<char>, d: char) -> int
    decreases s.len(),
{
    if s.len() == 0 {
        -1
    } else if s.last() == d {
        s.len() - 1
    } else {
        last_of(s.drop_last(), d)
    }
}

pub proof fn lemma_last_of(s: Seq<char>, d: char, n: int)
    requires
        -1 <= n < s.len(),
        forall|i: int| n < i < s.len() ==> s[i] != d,
        0 <= n ==> s[n] == d,
    ensures
        last_of(s, d) == n,
    decreases s.len(),
{
    if s.len() > 0 && n < s.len() - 1 {
        lemma_last_of(s.drop_last(), d, n);
    }
}

/// What precedes and what follows the last `d`, where `s` has one.
pub open spec fn cut_last(s: Seq<char>, d: char) -> Option<(Seq<char>, Seq<char>)> {
    let n = last_of(s, d);
    if n >= 0 {
        Some((s.take(n), s.skip(n + 1)))
    } else {
        None
    }
}

/// `str::rsplit_once` with one character.
pub fn rsplit_once(s: &str, d: char) -> (r: Option<(String, String)>)
    ensures
        opt_pair_view(r) == cut_last(s@, d),
{
    let chars = chars_of(s);
    let mut n: usize = chars.len();
    while n > 0 && chars[n - 1] != d
        invariant
            n <= chars.len(),
            forall|i: int| n <= i < chars.len() ==> chars[i] != d,
        decreases n,
    {
        n -= 1;
    }
    proof {
        lemma_last_of(s@, d, n - 1);
    }
    if n > 0 {
        Some((string_of(&chars, 0, n - 1), string_of(&chars, n, chars.len())))
    } else {
        None
    }
}

// ---------------------------------------------------------------------------
// Rewriting
// ---------------------------------------------------------------------------

/// The ASCII lower case of `s`.
pub open spec fn lowered(s: Seq<char>) -> Seq<char> {
    s.map_values(|c: char| lower(c))
}

/// `s` with `to` in place of each character that satisfies `p`.
pub open spec fn swapped(s: Seq<char>, p: spec_fn(char) -> bool, to: char) -> Seq<char> {
    s.map_values(
        |c: char|
            if p(c) {
                to
            } else {
                c
            },
    )
}

/// `s` with `with` in place of each occurrence of `part`, from the left.
pub open spec fn replaced(s: Seq<char>, part: Seq<char>, with: Seq<char>) -> Seq<char>
    decreases s.len(),
{
    if part.len() == 0 || s.len() < part.len() {
        s
    } else if has_prefix(s, part) {
        with + replaced(s.skip(part.len() as int), part, with)
    } else {
        seq![s[0]] + replaced(s.drop_first(), part, with)
    }
}

/// The parts with `sep` between each two of them.
pub open spec fn joined(parts: Seq<Seq<char>>, sep: Seq<char>) -> Seq<char>
    decreases parts.len(),
{
    if parts.len() == 0 {
        Seq::empty()
    } else if parts.len() == 1 {
        parts[0]
    } else {
        joined(parts.drop_last(), sep) + sep + parts.last()
    }
}

/// `str::to_ascii_lowercase`.
pub fn to_ascii_lowercase(s: &str) -> (r: String)
    ensures
        r@ == lowered(s@),
{
    let mut out = String::new();
    assert(out@ =~= lowered(s@.take(0)));
    for c in it: s.chars()
        invariant
            it.seq() == s@,
            out@ == lowered(s@.take(it.index() as int)),
    {
        let l = lower_char(c);
        out.push(l);
        proof {
            let i = it.index() as int;
            assert(lowered(s@.take(i + 1)) =~= lowered(s@.take(i)).push(l));
        }
    }
    assert(s@.take(s@.len() as int) =~= s@);
    out
}

/// `str::eq_ignore_ascii_case`.
pub fn eq_ignore_ascii_case(a: &str, b: &str) -> (r: bool)
    ensures
        r == (lowered(a@) == lowered(b@)),
{
    to_ascii_lowercase(a) == to_ascii_lowercase(b)
}

/// `str::replace` of each character of `set` by one character.
pub fn replace_chars(s: &str, set: &str, to: char) -> (r: String)
    ensures
        r@ == swapped(s@, any_of(set@), to),
{
    let set_chars = chars_of(set);
    let mut out = String::new();
    assert(out@ =~= swapped(s@.take(0), any_of(set@), to));
    for c in it: s.chars()
        invariant
            it.seq() == s@,
            set_chars@ == set@,
            out@ == swapped(s@.take(it.index() as int), any_of(set@), to),
    {
        let d = if among(&set_chars, c) {
            to
        } else {
            c
        };
        out.push(d);
        proof {
            let i = it.index() as int;
            assert(swapped(s@.take(i + 1), any_of(set@), to) =~= swapped(
                s@.take(i),
                any_of(set@),
                to,
            ).push(d));
        }
    }
    assert(s@.take(s@.len() as int) =~= s@);
    out
}

/// `str::replace` of a string that is not empty.
pub fn replace(s: &str, part: &str, with: &str) -> (r: String)
    requires
        part@.len() > 0,
    ensures
        r@ == replaced(s@, part@, with@),
{
    let chars = chars_of(s);
    let piece = chars_of(part);
    let mut out = String::new();
    let mut i: usize = 0;
    assert(s@.skip(0) =~= s@);
    assert(out@ + replaced(s@.skip(0), part@, with@) =~= replaced(s@, part@, with@));
    while chars.len() - i >= piece.len()
        invariant
            chars@ == s@,
            piece@ == part@,
            piece.len() > 0,
            i <= chars.len(),
            out@ + replaced(s@.skip(i as int), part@, with@) == replaced(s@, part@, with@),
        decreases chars.len() - i,
    {
        let ghost rest = s@.skip(i as int);
        let found = matches_at(&chars, &piece, i);
        proof {
            assert(found == has_prefix(rest, part@)) by {
                assert(rest.subrange(0, part@.len() as int) =~= s@.subrange(
                    i as int,
                    i + part@.len(),
                ));
            }
            assert(rest.drop_first() =~= s@.skip(i + 1));
            assert(rest.skip(part@.len() as int) =~= s@.skip(i + part@.len()));
        }
        let ghost before = out@;
        if found {
            out.append(with);
            i += piece.len();
            proof {
                assert(out@ + replaced(s@.skip(i as int), part@, with@) =~= before + replaced(
                    rest,
                    part@,
                    with@,
                ));
            }
        } else {
            out.push(chars[i]);
            i += 1;
            proof {
                assert(out@ + replaced(s@.skip(i as int), part@, with@) =~= before + replaced(
                    rest,
                    part@,
                    with@,
                ));
            }
        }
    }
    let tail = string_of(&chars, i, chars.len());
    assert(tail@ =~= s@.skip(i as int));
    out.append(tail.as_str());
    out
}

/// `join` of a list of strings.
pub fn join(parts: &Vec<String>, sep: &str) -> (r: String)
    ensures
        r@ == joined(views(parts@), sep@),
{
    let mut out = String::new();
    let mut i: usize = 0;
    let ghost all = views(parts@);
    while i < parts.len()
        invariant
            i <= parts.len(),
            all == views(parts@),
            out@ == joined(all.take(i as int), sep@),
        decreases parts.len() - i,
    {
        if i > 0 {
            out.append(sep);
        }
        out.append(parts[i].as_str());
        proof {
            assert(all.take(i + 1).drop_last() =~= all.take(i as int));
            assert(all.take(i + 1).last() == parts@[i as int]@);
            if i == 0 {
                assert(out@ =~= parts@[0]@);
            }
        }
        i += 1;
    }
    assert(all.take(i as int) =~= all);
    out
}

// ---------------------------------------------------------------------------
// Numbers
// ---------------------------------------------------------------------------

/// The character of a decimal digit.
pub open spec fn digit_char(d: int) -> char {
    (('0' as u8) + d) as u8 as char
}

/// The decimal digits of `n`.
pub open spec fn dec(n: nat) -> Seq<char>
    decreases n,
{
    if n < 10 {
        seq![digit_char(n as int)]
    } else {
        dec(n / 10).push(digit_char((n % 10) as int))
    }
}

/// The decimal digits of `n`, with a minus sign where `n` is negative.
pub open spec fn dec_int(n: int) -> Seq<char> {
    if n < 0 {
        seq!['-'] + dec((-n) as nat)
    } else {
        dec(n as nat)
    }
}

/// `n` in decimal digits.
pub fn decimal(n: u64) -> (r: String)
    ensures
        r@ == dec(n as nat),
    decreases n,
{
    let digit: u8 = (n % 10) as u8;
    if n < 10 {
        let mut out = String::new();
        out.push((48u8 + digit) as char);
        assert(out@ =~= dec(n as nat));
        out
    } else {
        let mut out = decimal(n / 10);
        out.push((48u8 + digit) as char);
        out
    }
}

/// `n` in decimal digits, with a minus sign where it is negative.
pub fn decimal_int(n: i64) -> (r: String)
    ensures
        r@ == dec_int(n as int),
{
    if n < 0 {
        let mut out = String::new();
        out.push('-');
        let magnitude: u64 = if n == i64::MIN {
            0x8000_0000_0000_0000u64
        } else {
            (-n) as u64
        };
        let digits = decimal(magnitude);
        out.append(digits.as_str());
        assert(out@ =~= dec_int(n as int));
        out
    } else {
        decimal(n as u64)
    }
}

/// All characters are decimal digits, and there is one.
pub open spec fn is_number(s: Seq<char>) -> bool {
    s.len() > 0 && forall|i: int| 0 <= i < s.len() ==> is_digit(#[trigger] s[i])
}

/// The number that the decimal digits of `s` stand for.
pub open spec fn value_of(s: Seq<char>) -> nat
    decreases s.len(),
{
    if s.len() == 0 {
        0
    } else {
        value_of(s.drop_last()) * 10 + ((s.last() as u8) - ('0' as u8)) as nat
    }
}

/// `s` without one plus sign in front.
pub open spec fn without_plus(s: Seq<char>) -> Seq<char> {
    if s.len() > 0 && s[0] == '+' {
        s.drop_first()
    } else {
        s
    }
}

/// The number in `s`, where `s` is one that is at most `max`.
pub open spec fn number(s: Seq<char>, max: int) -> Option<int> {
    let t = without_plus(s);
    if is_number(t) && value_of(t) <= max {
        Some(value_of(t) as int)
    } else {
        None
    }
}

/// The number in `s`, where `s` is one, perhaps with a minus sign, between
/// `min` and `max`.
pub open spec fn signed_number(s: Seq<char>, min: int, max: int) -> Option<int> {
    if s.len() > 0 && s[0] == '-' {
        let t = s.drop_first();
        if is_number(t) && -(value_of(t) as int) >= min {
            Some(-(value_of(t) as int))
        } else {
            None
        }
    } else {
        number(s, max)
    }
}

proof fn lemma_value_grows(s: Seq<char>, n: int)
    requires
        0 <= n <= s.len(),
    ensures
        value_of(s.take(n)) <= value_of(s),
    decreases s.len(),
{
    if n < s.len() {
        let t = s.drop_last();
        assert(t.take(n) =~= s.take(n));
        lemma_value_grows(t, n);
    } else {
        assert(s.take(n) =~= s);
    }
}

/// The value of the decimal digits `chars[from..]`, where they are digits, at
/// least one, and the value is at most `max`.
fn parse_digits(chars: &Vec<char>, from: usize, max: u64) -> (r: Option<u64>)
    requires
        from <= chars.len(),
    ensures
        ({
            let t = chars@.skip(from as int);
            r == (if is_number(t) && value_of(t) <= max {
                Some(value_of(t) as u64)
            } else {
                None
            })
        }),
{
    let ghost t = chars@.skip(from as int);
    if from == chars.len() {
        return None;
    }
    let mut i: usize = from;
    let mut value: u64 = 0;
    while i < chars.len()
        invariant
            from <= i <= chars.len(),
            t == chars@.skip(from as int),
            forall|k: int| 0 <= k < i - from ==> is_digit(#[trigger] t[k]),
            value == value_of(t.take(i - from)),
            value <= max,
        decreases chars.len() - i,
    {
        let c = chars[i];
        let ghost k = i - from;
        assert(c == t[k]);
        if !('0' <= c && c <= '9') {
            return None;
        }
        let digit: u64 = ((c as u8) - 48u8) as u64;
        proof {
            assert(t.take(k + 1).drop_last() =~= t.take(k));
            assert(t.take(k + 1).last() == c);
            lemma_value_grows(t, k + 1);
        }
        if value > max / 10 || digit > max - value * 10 {
            return None;
        }
        value = value * 10 + digit;
        i += 1;
    }
    assert(t.take(i - from) =~= t);
    Some(value)
}

/// `str::parse` into an unsigned integer whose largest value is `max`.
pub fn parse_unsigned(s: &str, max: u64) -> (r: Option<u64>)
    ensures
        r == (match number(s@, max as int) {
            Some(n) => Some(n as u64),
            None => None,
        }),
{
    let chars = chars_of(s);
    let from: usize = if chars.len() > 0 && chars[0] == '+' {
        1
    } else {
        0
    };
    assert(s@.skip(from as int) =~= without_plus(s@));
    parse_digits(&chars, from, max)
}

/// `str::parse` into an `i32`.
pub fn parse_i32(s: &str) -> (r: Option<i32>)
    ensures
        r == (match signed_number(s@, i32::MIN as int, i32::MAX as int) {
            Some(n) => Some(n as i32),
            None => None,
        }),
{
    let chars = chars_of(s);
    if chars.len() > 0 && chars[0] == '-' {
        assert(s@.skip(1) =~= s@.drop_first());
        match parse_digits(&chars, 1, 0x8000_0000) {
            Some(n) => Some((-(n as i64)) as i32),
            None => None,
        }
    } else {
        match parse_unsigned(s, 0x7FFF_FFFF) {
            Some(n) => Some(n as i32),
            None => None,
        }
    }
}

/// A number in digits is read back as it was.
pub proof fn law_decimal_round_trip(n: nat)
    ensures
        is_number(dec(n)),
        value_of(dec(n)) == n,
    decreases n,
{
    if n < 10 {
        let s = dec(n);
        assert(s.drop_last() =~= Seq::<char>::empty());
        assert(value_of(Seq::<char>::empty()) == 0);
        assert(s.last() == digit_char(n as int));
    } else {
        law_decimal_round_trip(n / 10);
        let front = dec(n / 10);
        let s = dec(n);
        assert(s.drop_last() =~= front);
        assert forall|i: int| 0 <= i < s.len() implies is_digit(#[trigger] s[i]) by {
            if i < front.len() {
                assert(s[i] == front[i]);
            }
        }
    }
}

/// Text without the character `d` is one piece.
pub proof fn lemma_split_one(s: Seq<char>, d: char)
    requires
        !s.contains(d),
    ensures
        split_at_each(s, d) == seq![s],
    decreases s.len(),
{
    if s.len() == 0 {
        assert(s =~= Seq::<char>::empty());
        assert(split_at_each(s, d) =~= seq![s]);
    } else {
        let front = s.drop_last();
        assert(s.contains(s.last()));
        assert(!front.contains(d)) by {
            if front.contains(d) {
                let i = choose|i: int| 0 <= i < front.len() && front[i] == d;
                assert(s[i] == d);
            }
        }
        lemma_split_one(front, d);
        assert(front.push(s.last()) =~= s);
        assert(split_at_each(s, d) =~= seq![s]);
    }
}

/// Text behind a `d` is a piece of its own.
pub proof fn lemma_split_append(a: Seq<char>, d: char, b: Seq<char>)
    requires
        !b.contains(d),
    ensures
        split_at_each(a.push(d) + b, d) == split_at_each(a, d).push(b),
    decreases b.len(),
{
    if b.len() == 0 {
        assert(b =~= Seq::<char>::empty());
        assert(a.push(d) + b =~= a.push(d));
        assert(a.push(d).drop_last() =~= a);
        assert(split_at_each(a.push(d), d) =~= split_at_each(a, d).push(b));
    } else {
        let front = b.drop_last();
        assert(b.contains(b.last()));
        assert(!front.contains(d)) by {
            if front.contains(d) {
                let i = choose|i: int| 0 <= i < front.len() && front[i] == d;
                assert(b[i] == d);
            }
        }
        lemma_split_append(a, d, front);
        let s = a.push(d) + b;
        assert(s.drop_last() =~= a.push(d) + front);
        let before = split_at_each(a, d).push(front);
        assert(before.drop_last() =~= split_at_each(a, d));
        assert(front.push(b.last()) =~= b);
    }
}

/// No character of `s` satisfies `p`.
pub open spec fn free_of(s: Seq<char>, p: spec_fn(char) -> bool) -> bool {
    forall|i: int| 0 <= i < s.len() ==> !p(#[trigger] s[i])
}

/// A word: not empty, and without white space.
pub open spec fn is_word(w: Seq<char>) -> bool {
    w.len() > 0 && free_of(w, spaces())
}

proof fn lemma_pieces(s: Seq<char>, p: spec_fn(char) -> bool, bad: spec_fn(char) -> bool)
    requires
        free_of(s, bad),
    ensures
        forall|k: int|
            0 <= k < split_by(s, p).len() ==> free_of(#[trigger] split_by(s, p)[k], p) && free_of(
                split_by(s, p)[k],
                bad,
            ),
    decreases s.len(),
{
    if s.len() > 0 {
        let front = s.drop_last();
        assert forall|i: int| 0 <= i < front.len() implies !bad(#[trigger] front[i]) by {
            assert(!bad(s[i]));
        }
        assert(!bad(s[s.len() - 1]));
        lemma_pieces(front, p, bad);
        lemma_split_by_nonempty(front, p);
        let before = split_by(front, p);
        assert(free_of(before[before.len() - 1], p) && free_of(before[before.len() - 1], bad));
    }
}

/// The pieces between white space that are not empty are words, of the
/// characters of the text.
pub proof fn lemma_words(s: Seq<char>, bad: spec_fn(char) -> bool)
    requires
        free_of(s, bad),
    ensures
        forall|k: int|
            0 <= k < words_of(s).len() ==> is_word(#[trigger] words_of(s)[k]) && free_of(
                words_of(s)[k],
                bad,
            ),
{
    let pieces = split_by(s, spaces());
    let full = |w: Seq<char>| w.len() > 0;
    lemma_pieces(s, spaces(), bad);
    lemma_filter_members(pieces, full);
    assert forall|k: int| 0 <= k < words_of(s).len() implies is_word(#[trigger] words_of(s)[k])
        && free_of(words_of(s)[k], bad) by {
        let w = pieces.filter(full)[k];
        assert(full(w) && pieces.contains(w));
        let at = choose|at: int| 0 <= at < pieces.len() && pieces[at] == w;
        assert(free_of(pieces[at], spaces()) && free_of(pieces[at], bad));
    }
}

proof fn lemma_filter_members(list: Seq<Seq<char>>, keep: spec_fn(Seq<char>) -> bool)
    ensures
        forall|k: int|
            0 <= k < list.filter(keep).len() ==> keep(#[trigger] list.filter(keep)[k])
                && list.contains(list.filter(keep)[k]),
    decreases list.len(),
{
    reveal(Seq::filter);
    if list.len() > 0 {
        let front = list.drop_last();
        lemma_filter_members(front, keep);
        assert forall|k: int| 0 <= k < list.filter(keep).len() implies keep(
            #[trigger] list.filter(keep)[k],
        ) && list.contains(list.filter(keep)[k]) by {
            if k < front.filter(keep).len() {
                let w = front.filter(keep)[k];
                assert(front.contains(w));
                let at = choose|at: int| 0 <= at < front.len() && front[at] == w;
                assert(list[at] == w);
            } else {
                assert(list[list.len() - 1] == list.last());
            }
        }
    }
}

proof fn lemma_split_word(a: Seq<char>, c: char, w: Seq<char>, p: spec_fn(char) -> bool)
    requires
        p(c),
        free_of(w, p),
    ensures
        split_by(a.push(c) + w, p) == split_by(a, p).push(w),
    decreases w.len(),
{
    if w.len() == 0 {
        assert(w =~= Seq::<char>::empty());
        assert(a.push(c) + w =~= a.push(c));
        assert(a.push(c).drop_last() =~= a);
    } else {
        let front = w.drop_last();
        assert forall|i: int| 0 <= i < front.len() implies !p(#[trigger] front[i]) by {
            assert(!p(w[i]));
        }
        assert(!p(w[w.len() - 1]));
        lemma_split_word(a, c, front, p);
        assert((a.push(c) + w).drop_last() =~= a.push(c) + front);
        assert(split_by(a, p).push(front).drop_last() =~= split_by(a, p));
        assert(front.push(w.last()) =~= w);
    }
}

proof fn lemma_split_alone(w: Seq<char>, p: spec_fn(char) -> bool)
    requires
        free_of(w, p),
    ensures
        split_by(w, p) == seq![w],
    decreases w.len(),
{
    if w.len() == 0 {
        assert(w =~= Seq::<char>::empty());
    } else {
        let front = w.drop_last();
        assert forall|i: int| 0 <= i < front.len() implies !p(#[trigger] front[i]) by {
            assert(!p(w[i]));
        }
        assert(!p(w[w.len() - 1]));
        lemma_split_alone(front, p);
        assert(front.push(w.last()) =~= w);
        assert(split_by(w, p) =~= seq![w]);
    }
}

/// Words with one space between each two of them are the words of the whole;
/// the whole starts and ends with a word, and holds no other characters than
/// theirs and spaces.
pub proof fn lemma_joined_words(words: Seq<Seq<char>>, bad: spec_fn(char) -> bool)
    requires
        forall|k: int|
            0 <= k < words.len() ==> is_word(#[trigger] words[k]) && free_of(words[k], bad),
        !bad(' '),
    ensures
        words_of(joined(words, " "@)) == words,
        free_of(joined(words, " "@), bad),
        words.len() == 0 <==> joined(words, " "@).len() == 0,
        words.len() > 0 ==> !is_space(joined(words, " "@)[0]) && !is_space(
            joined(words, " "@).last(),
        ),
    decreases words.len(),
{
    reveal_strlit(" ");
    reveal_with_fuel(Seq::filter, 2);
    let full = |w: Seq<char>| w.len() > 0;
    let whole = joined(words, " "@);
    if words.len() == 0 {
        lemma_split_alone(whole, spaces());
        assert(seq![whole].drop_last() =~= Seq::<Seq<char>>::empty());
        assert(seq![whole].filter(full) =~= words);
    } else {
        let front = words.drop_last();
        let last = words.last();
        assert(is_word(words[words.len() - 1]) && free_of(words[words.len() - 1], bad));
        assert(!spaces()(last[last.len() - 1]));
        assert(!spaces()(last[0]));
        if words.len() == 1 {
            lemma_split_alone(whole, spaces());
            assert(seq![whole].drop_last() =~= Seq::<Seq<char>>::empty());
            assert(seq![whole].filter(full) =~= words);
        } else {
            assert forall|k: int| 0 <= k < front.len() implies is_word(#[trigger] front[k])
                && free_of(front[k], bad) by {
                assert(is_word(words[k]));
            }
            lemma_joined_words(front, bad);
            let start = joined(front, " "@);
            assert(start + " "@ + last =~= start.push(' ') + last);
            lemma_split_word(start, ' ', last, spaces());
            let pieces = split_by(start, spaces());
            assert(pieces.push(last).drop_last() =~= pieces);
            assert(full(last));
            assert(words_of(whole) =~= front.push(last));
            assert(front.push(last) =~= words);
            assert forall|i: int| 0 <= i < whole.len() implies !bad(#[trigger] whole[i]) by {
                if i < start.len() {
                    assert(whole[i] == start[i]);
                } else if i == start.len() {
                    assert(whole[i] == ' ');
                } else {
                    assert(whole[i] == last[i - start.len() - 1]);
                }
            }
        }
    }
}

// ---------------------------------------------------------------------------
// What the pieces of a text are
// ---------------------------------------------------------------------------

proof fn lemma_front_kept(s: Seq<char>, p: spec_fn(char) -> bool) -> (n: int)
    ensures
        0 <= n <= s.len(),
        trim_front(s, p) == s.subrange(n, s.len() as int),
        forall|i: int| 0 <= i < n ==> p(#[trigger] s[i]),
        n < s.len() ==> !p(s[n]),
    decreases s.len(),
{
    if s.len() > 0 && p(s[0]) {
        let rest = s.drop_first();
        let m = lemma_front_kept(rest, p);
        assert forall|i: int| 0 <= i < m + 1 implies p(#[trigger] s[i]) by {
            if i > 0 {
                assert(p(rest[i - 1]));
            }
        }
        assert(rest.subrange(m, rest.len() as int) =~= s.subrange(m + 1, s.len() as int));
        m + 1
    } else {
        assert(s.subrange(0, s.len() as int) =~= s);
        0
    }
}

proof fn lemma_back_kept(s: Seq<char>, p: spec_fn(char) -> bool) -> (n: int)
    ensures
        0 <= n <= s.len(),
        trim_back(s, p) == s.subrange(0, n),
        forall|i: int| n <= i < s.len() ==> p(#[trigger] s[i]),
        n > 0 ==> !p(s[n - 1]),
    decreases s.len(),
{
    if s.len() > 0 && p(s.last()) {
        let rest = s.drop_last();
        let m = lemma_back_kept(rest, p);
        assert forall|i: int| m <= i < s.len() implies p(#[trigger] s[i]) by {
            if i < rest.len() {
                assert(p(rest[i]));
            }
        }
        assert(rest.subrange(0, m) =~= s.subrange(0, m));
        m
    } else {
        assert(s.subrange(0, s.len() as int) =~= s);
        s.len() as int
    }
}

/// What is left of a text that is trimmed is one part of it, without white space
/// at its ends; what is gone was white space.
pub proof fn law_trimmed(s: Seq<char>)
    ensures
        trimmed(s).len() > 0 ==> !is_space(trimmed(s)[0]) && !is_space(trimmed(s).last()),
        exists|n: int, m: int|
            0 <= n <= m <= s.len() && trimmed(s) == #[trigger] s.subrange(n, m) && (forall|i: int|
                0 <= i < s.len() && !(n <= i < m) ==> is_space(#[trigger] s[i])),
{
    let p = spaces();
    let front = trim_front(s, p);
    let n = lemma_front_kept(s, p);
    let k = lemma_back_kept(front, p);
    let m = n + k;
    assert(front.subrange(0, k) =~= s.subrange(n, m));
    assert forall|i: int| 0 <= i < s.len() && !(n <= i < m) implies is_space(
        #[trigger] s[i],
    ) by {
        if i < n {
            assert(p(s[i]));
        } else {
            assert(front[i - n] == s[i]);
            assert(p(front[i - n]));
        }
    }
    if k > 0 {
        assert(front[0] == s[n]);
        assert(front.subrange(0, k)[0] == front[0]);
        assert(front.subrange(0, k).last() == front[k - 1]);
    }
}

/// A text with something in it and without white space at its ends.
pub open spec fn is_bare(s: Seq<char>) -> bool {
    s.len() > 0 && !is_space(s[0]) && !is_space(s.last())
}

/// Trimming leaves alone what has no white space around it, and takes away one
/// space in front.
pub proof fn lemma_bare(s: Seq<char>)
    requires
        is_bare(s),
    ensures
        trimmed(s) == s,
        trimmed(" "@ + s) == s,
{
    reveal_strlit(" ");
    let t = " "@ + s;
    assert(t[0] == ' ');
    assert(t.drop_first() =~= s);
    assert(trim_front(t, spaces()) == trim_front(s, spaces()));
    assert(trim_front(s, spaces()) == s);
}

/// What follows a prefix is what was put behind it.
pub proof fn lemma_after_prefix(a: Seq<char>, b: Seq<char>)
    ensures
        has_prefix(a + b, a),
        after_prefix(a + b, a) == Some(b),
        has_suffix(a + b, b),
        before_suffix(a + b, b) == Some(a),
{
    assert((a + b).subrange(0, a.len() as int) =~= a);
    assert((a + b).skip(a.len() as int) =~= b);
    assert((a + b).subrange(a.len() as int, (a + b).len() as int) =~= b);
    assert((a + b).take(a.len() as int) =~= a);
}

/// What is cut at a character is what stands in front of its first occurrence
/// and what stands behind it.
pub proof fn law_cut(s: Seq<char>, d: char)
    ensures
        cut(s, d) is Some <==> s.contains(d),
        cut(s, d) is Some ==> {
            let (a, b) = cut(s, d)->Some_0;
            !a.contains(d) && s == a.push(d) + b
        },
    decreases s.len(),
{
    if s.len() > 0 {
        let rest = s.drop_first();
        law_cut(rest, d);
        if s[0] == d {
            assert(s.take(0) =~= Seq::<char>::empty());
            if s.contains(d) {
                assert(s =~= s.take(0).push(d) + s.skip(1));
            }
        } else if s.contains(d) {
            let i = choose|i: int| 0 <= i < s.len() && s[i] == d;
            assert(rest[i - 1] == d);
            let n = first_of(rest, d);
            let (a, b) = cut(rest, d)->Some_0;
            assert(rest.len() == a.len() + 1 + b.len());
            lemma_first_bounds(rest, d);
            assert(s.take(n + 1) =~= seq![s[0]] + a);
            assert(s.skip(n + 2) =~= b);
            assert(s =~= (seq![s[0]] + a).push(d) + b);
            assert(!(seq![s[0]] + a).contains(d)) by {
                if (seq![s[0]] + a).contains(d) {
                    let k = choose|k: int|
                        0 <= k < (seq![s[0]] + a).len() && (seq![s[0]] + a)[k] == d;
                    assert(a[k - 1] == d);
                }
            }
        }
    }
}

proof fn lemma_first_bounds(s: Seq<char>, d: char)
    ensures
        0 <= first_of(s, d) <= s.len(),
        s.contains(d) ==> first_of(s, d) < s.len() && s[first_of(s, d)] == d,
    decreases s.len(),
{
    if s.len() > 0 && s[0] != d {
        let rest = s.drop_first();
        lemma_first_bounds(rest, d);
        if s.contains(d) {
            let i = choose|i: int| 0 <= i < s.len() && s[i] == d;
            assert(rest[i - 1] == d);
        }
    }
}

/// Lines with a line end behind each of them.
pub open spec fn text_of(lines: Seq<Seq<char>>) -> Seq<char>
    decreases lines.len(),
{
    if lines.len() == 0 {
        Seq::empty()
    } else {
        (text_of(lines.drop_last()) + lines.last()).push('\n')
    }
}

/// A line holds no line end, nor the start of one.
pub open spec fn is_line(line: Seq<char>) -> bool {
    !line.contains('\n') && (line.len() > 0 ==> line.last() != '\r')
}

proof fn lemma_split_extends(s: Seq<char>, b: Seq<char>, d: char)
    requires
        !b.contains(d),
    ensures
        split_at_each(s + b, d) == split_at_each(s, d).drop_last().push(
            split_at_each(s, d).last() + b,
        ),
    decreases b.len(),
{
    lemma_split_by_nonempty(s, only(d));
    let pieces = split_at_each(s, d);
    if b.len() == 0 {
        assert(s + b =~= s);
        assert(pieces.last() + b =~= pieces.last());
        assert(pieces.drop_last().push(pieces.last()) =~= pieces);
    } else {
        let front = b.drop_last();
        assert(b.contains(b.last()));
        assert(!front.contains(d)) by {
            if front.contains(d) {
                let i = choose|i: int| 0 <= i < front.len() && front[i] == d;
                assert(b[i] == d);
            }
        }
        lemma_split_extends(s, front, d);
        assert((s + b).drop_last() =~= s + front);
        assert((s + b).last() == b.last());
        let before = split_at_each(s + front, d);
        assert(before.drop_last() =~= pieces.drop_last());
        assert((pieces.last() + front).push(b.last()) =~= pieces.last() + b);
    }
}

proof fn lemma_text_splits(lines: Seq<Seq<char>>)
    requires
        forall|i: int| 0 <= i < lines.len() ==> is_line(#[trigger] lines[i]),
    ensures
        split_at_each(text_of(lines), '\n') == lines.push(Seq::empty()),
    decreases lines.len(),
{
    if lines.len() == 0 {
        assert(split_at_each(text_of(lines), '\n') =~= lines.push(Seq::empty()));
    } else {
        let front = lines.drop_last();
        let last = lines.last();
        assert forall|i: int| 0 <= i < front.len() implies is_line(#[trigger] front[i]) by {
            assert(is_line(lines[i]));
        }
        lemma_text_splits(front);
        assert(is_line(lines[lines.len() - 1]));
        let text = text_of(front);
        lemma_split_extends(text, last, '\n');
        assert(front.push(Seq::<char>::empty()).drop_last() =~= front);
        assert(Seq::<char>::empty() + last =~= last);
        assert(text_of(lines).drop_last() =~= text + last);
        assert(front.push(last) =~= lines);
    }
}

/// Lines that are written one below the other are read back as they were.
pub proof fn law_lines_round_trip(lines: Seq<Seq<char>>)
    requires
        forall|i: int| 0 <= i < lines.len() ==> is_line(#[trigger] lines[i]),
    ensures
        lines_of(text_of(lines)) == lines,
{
    lemma_text_splits(lines);
    let pieces = split_at_each(text_of(lines), '\n');
    assert(pieces.drop_last() =~= lines);
    let full = pieces.drop_last().map_values(|l: Seq<char>| without_cr(l));
    assert forall|i: int| 0 <= i < lines.len() implies #[trigger] full[i] == lines[i] by {
        assert(is_line(lines[i]));
    }
    assert(full =~= lines);
}

} // verus!
