//! Text over `Seq<char>`: searching, splitting, numbers and padding.
//!
//! Every function here is stated over the characters of its arguments, so that
//! the rest of the library can reason about messages, command lines and tables
//! without looking at byte encodings.
use vstd::prelude::*;

verus! {

broadcast use vstd::string::group_string_axioms;

/// `String::push` appends one character.
pub assume_specification[ String::push ](s: &mut String, c: char)
    ensures
        final(s)@ == old(s)@.push(c),
;

/// The Unicode `White_Space` characters, which `char::is_whitespace` accepts.
pub open spec fn is_white(c: char) -> bool {
    let n = c as u32;
    ||| 0x9 <= n <= 0xd
    ||| n == 0x20
    ||| n == 0x85
    ||| n == 0xa0
    ||| n == 0x1680
    ||| 0x2000 <= n <= 0x200a
    ||| n == 0x2028
    ||| n == 0x2029
    ||| n == 0x202f
    ||| n == 0x205f
    ||| n == 0x3000
}

/// Whether a character is Unicode white space.
pub fn white(c: char) -> (r: bool)
    ensures
        r == is_white(c),
{
    let n: u32 = c as u32;
    (0x9 <= n && n <= 0xd) || n == 0x20 || n == 0x85 || n == 0xa0 || n == 0x1680 || (0x2000 <= n
        && n <= 0x200a) || n == 0x2028 || n == 0x2029 || n == 0x202f || n == 0x205f || n == 0x3000
}

/// The characters of a text.
pub fn chars_of(s: &str) -> (v: Vec<char>)
    ensures
        v@ == s@,
{
    let mut v: Vec<char> = Vec::new();
    let n: usize = s.unicode_len();
    let mut it = s.chars();
    let mut i: usize = 0;
    while i < n
        invariant
            i <= n,
            n == s@.len(),
            v@ == s@.take(i as int),
            vstd::std_specs::iter::IteratorSpec::obeys_prophetic_iter_laws(&it),
            vstd::std_specs::iter::IteratorSpec::remaining(&it) == s@.skip(i as int),
        decreases n - i,
    {
        match it.next() {
            Some(c) => {
                v.push(c);
            },
            None => {},
        }
        i = i + 1;
    }
    v
}

/// A text made of the given characters.
pub fn text_of(cs: &Vec<char>) -> (s: String)
    ensures
        s@ == cs@,
{
    text_between(cs, 0, cs.len())
}

/// A text made of the characters from `from` up to `to`.
pub fn text_between(cs: &Vec<char>, from: usize, to: usize) -> (s: String)
    requires
        from <= to <= cs@.len(),
    ensures
        s@ == cs@.subrange(from as int, to as int),
{
    let mut s = String::new();
    let mut i: usize = from;
    while i < to
        invariant
            from <= i <= to <= cs@.len(),
            s@ == cs@.subrange(from as int, i as int),
        decreases to - i,
    {
        s.push(cs[i]);
        i = i + 1;
    }
    s
}

/// The texts that a list of strings holds.
pub open spec fn texts(v: Seq<String>) -> Seq<Seq<char>> {
    v.map_values(|s: String| s@)
}

/// Pushing a string pushes its text.
pub broadcast proof fn lemma_texts_push(v: Seq<String>, s: String)
    ensures
        #[trigger] texts(v.push(s)) == texts(v).push(s@),
{
    assert(texts(v.push(s)) =~= texts(v).push(s@));
}

/// No strings hold no texts.
pub broadcast proof fn lemma_texts_empty()
    ensures
        #[trigger] texts(Seq::<String>::empty()) == Seq::<Seq<char>>::empty(),
{
    assert(texts(Seq::<String>::empty()) =~= Seq::<Seq<char>>::empty());
}

/// What lists of strings hold as they are built.
pub broadcast group group_texts {
    lemma_texts_push,
    lemma_texts_empty,
}

/// Adds texts to others.
pub fn extend(v: &mut Vec<String>, more: Vec<String>)
    ensures
        texts(final(v)@) == texts(old(v)@) + texts(more@),
{
    let ghost before = v@;
    let ghost added = more@;
    let mut more = more;
    v.append(&mut more);
    assert(texts(v@) =~= texts(before) + texts(added));
}

/// Whether two texts have the same characters.
pub fn same_text(a: &str, b: &str) -> (r: bool)
    ensures
        r == (a@ == b@),
{
    a.to_owned() == b.to_owned()
}

/// Whether `needle` stands in `hay` at index `i`.
pub open spec fn occurs_at(hay: Seq<char>, needle: Seq<char>, i: int) -> bool {
    0 <= i && i + needle.len() <= hay.len() && hay.subrange(i, i + needle.len()) == needle
}

/// Whether `needle` stands anywhere in `hay`.
pub open spec fn occurs(hay: Seq<char>, needle: Seq<char>) -> bool {
    exists|i: int| occurs_at(hay, needle, i)
}

/// Whether `needle` stands in `hay` at index `i`.
pub fn stands_at(hay: &Vec<char>, needle: &Vec<char>, i: usize) -> (r: bool)
    ensures
        r == occurs_at(hay@, needle@, i as int),
{
    if i > hay.len() || hay.len() - i < needle.len() {
        return false;
    }
    let mut j: usize = 0;
    while j < needle.len()
        invariant
            i + needle.len() <= hay.len(),
            j <= needle.len(),
            forall|k: int| 0 <= k < j ==> hay@[i + k] == needle@[k],
        decreases needle.len() - j,
    {
        if hay[i + j] != needle[j] {
            assert(hay@.subrange(i as int, i + needle@.len())[j as int] != needle@[j as int]);
            return false;
        }
        j = j + 1;
    }
    assert(hay@.subrange(i as int, i + needle@.len()) =~= needle@);
    true
}

/// Whether `needle` occurs in `hay`.
pub fn contains(hay: &str, needle: &str) -> (r: bool)
    ensures
        r == occurs(hay@, needle@),
{
    let h = chars_of(hay);
    let n = chars_of(needle);
    let mut i: usize = 0;
    while i <= h.len()
        invariant
            h@ == hay@,
            n@ == needle@,
            i <= h@.len() + 1,
            forall|k: int| 0 <= k < i ==> !occurs_at(hay@, needle@, k),
        decreases h.len() + 1 - i,
    {
        if stands_at(&h, &n, i) {
            return true;
        }
        if i == h.len() {
            return false;
        }
        i = i + 1;
    }
    false
}

/// Whether one of `needles` occurs in `hay`.
pub open spec fn occurs_any(hay: Seq<char>, needles: Seq<Seq<char>>) -> bool {
    exists|k: int| 0 <= k < needles.len() && #[trigger] occurs(hay, needles[k])
}

/// Whether `hay` begins with `start`.
pub fn begins_with(hay: &str, start: &str) -> (r: bool)
    ensures
        r == start@.is_prefix_of(hay@),
{
    let h = chars_of(hay);
    let n = chars_of(start);
    assert(start@.is_prefix_of(hay@) == occurs_at(h@, n@, 0));
    stands_at(&h, &n, 0)
}

/// Whether `hay` ends with `end`.
pub fn finishes_with(hay: &str, end: &str) -> (r: bool)
    ensures
        r == end@.is_suffix_of(hay@),
{
    let h = chars_of(hay);
    let n = chars_of(end);
    if n.len() > h.len() {
        return false;
    }
    assert(end@.is_suffix_of(hay@) == occurs_at(h@, n@, h@.len() - n@.len()));
    stands_at(&h, &n, h.len() - n.len())
}

/// The index of the first `c` in `s`, or the length of `s` where there is none.
pub open spec fn first_index(s: Seq<char>, c: char) -> int
    decreases s.len(),
{
    if s.len() == 0 || s[0] == c {
        0
    } else {
        1 + first_index(s.drop_first(), c)
    }
}

/// The first index has no `c` before it, and is one of `c` or past the end.
pub proof fn lemma_first_index(s: Seq<char>, c: char)
    ensures
        0 <= first_index(s, c) <= s.len(),
        first_index(s, c) < s.len() ==> s[first_index(s, c)] == c,
        forall|k: int| 0 <= k < first_index(s, c) ==> s[k] != c,
    decreases s.len(),
{
    if s.len() > 0 && s[0] != c {
        lemma_first_index(s.drop_first(), c);
        let n = first_index(s.drop_first(), c);
        assert forall|k: int| 0 <= k < 1 + n implies s[k] != c by {
            if k > 0 {
                assert(s[k] == s.drop_first()[k - 1]);
            }
        }
    }
}

/// The pieces of `s` between the separators `c`; there is always at least one.
pub open spec fn split_on(s: Seq<char>, c: char) -> Seq<Seq<char>>
    decreases s.len(),
{
    let n = first_index(s, c);
    if 0 <= n < s.len() {
        seq![s.take(n)] + split_on(s.skip(n + 1), c)
    } else {
        seq![s]
    }
}

/// Splits a text at every `c`.
pub fn split_text(s: &str, c: char) -> (r: Vec<String>)
    ensures
        texts(r@) == split_on(s@, c),
{
    let cs = chars_of(s);
    let mut r: Vec<String> = Vec::new();
    let mut start: usize = 0;
    let mut i: usize = 0;
    assert(texts(r@) + split_on(s@.skip(0), c) =~= split_on(s@, c)) by {
        assert(s@.skip(0) =~= s@);
    }
    while i < cs.len()
        invariant
            cs@ == s@,
            start <= i <= cs@.len(),
            forall|k: int| start <= k < i ==> cs@[k] != c,
            texts(r@) + split_on(s@.skip(start as int), c) == split_on(s@, c),
        decreases cs.len() - i,
    {
        if cs[i] == c {
            proof {
                let rest = s@.skip(start as int);
                lemma_first_index(rest, c);
                let n = first_index(rest, c);
                assert(rest[i - start] == c);
                assert(n == i - start) by {
                    if n < i - start {
                        assert(cs@[start + n] == rest[n]);
                    }
                }
                assert(rest.take(n) =~= cs@.subrange(start as int, i as int));
                assert(rest.skip(n + 1) =~= s@.skip(i + 1));
            }
            let ghost before = r@;
            r.push(text_between(&cs, start, i));
            proof {
                assert(texts(r@) =~= texts(before).push(cs@.subrange(start as int, i as int)));
                assert(texts(r@) + split_on(s@.skip(i + 1), c) =~= texts(before) + split_on(
                    s@.skip(start as int),
                    c,
                ));
            }
            start = i + 1;
        }
        i = i + 1;
    }
    let ghost before = r@;
    r.push(text_between(&cs, start, cs.len()));
    proof {
        let rest = s@.skip(start as int);
        lemma_first_index(rest, c);
        let n = first_index(rest, c);
        if n < rest.len() {
            assert(cs@[start + n] == rest[n]);
        }
        assert(rest =~= cs@.subrange(start as int, cs@.len() as int));
        assert(texts(r@) =~= texts(before).push(rest));
        assert(split_on(rest, c) =~= seq![rest]);
        assert(texts(r@) =~= texts(before) + split_on(rest, c));
    }
    r
}

/// The length of the white space that `s` begins with.
pub open spec fn white_len(s: Seq<char>) -> nat
    decreases s.len(),
{
    if s.len() == 0 || !is_white(s[0]) {
        0
    } else {
        1 + white_len(s.drop_first())
    }
}

/// The length of the word that `s` begins with.
pub open spec fn word_len(s: Seq<char>) -> nat
    decreases s.len(),
{
    if s.len() == 0 || is_white(s[0]) {
        0
    } else {
        1 + word_len(s.drop_first())
    }
}

/// What holds of the run of white space that a text begins with.
pub proof fn lemma_white_len(s: Seq<char>)
    ensures
        white_len(s) <= s.len(),
        forall|k: int| 0 <= k < white_len(s) ==> is_white(s[k]),
        white_len(s) < s.len() ==> !is_white(s[white_len(s) as int]),
    decreases s.len(),
{
    if s.len() > 0 && is_white(s[0]) {
        lemma_white_len(s.drop_first());
        assert forall|k: int| 0 <= k < white_len(s) implies is_white(s[k]) by {
            if k > 0 {
                assert(s[k] == s.drop_first()[k - 1]);
            }
        }
    }
}

/// What holds of the word that a text begins with.
pub proof fn lemma_word_len(s: Seq<char>)
    ensures
        word_len(s) <= s.len(),
        forall|k: int| 0 <= k < word_len(s) ==> !is_white(s[k]),
        word_len(s) < s.len() ==> is_white(s[word_len(s) as int]),
    decreases s.len(),
{
    if s.len() > 0 && !is_white(s[0]) {
        lemma_word_len(s.drop_first());
        assert forall|k: int| 0 <= k < word_len(s) implies !is_white(s[k]) by {
            if k > 0 {
                assert(s[k] == s.drop_first()[k - 1]);
            }
        }
    }
}

/// The words of `s`: its longest pieces without white space, in order.
pub open spec fn words(s: Seq<char>) -> Seq<Seq<char>>
    decreases s.len(),
{
    if s.len() == 0 {
        Seq::empty()
    } else if is_white(s[0]) {
        words(s.skip(1))
    } else {
        let n = word_len(s) as int;
        if 0 < n <= s.len() {
            seq![s.take(n)] + words(s.skip(n))
        } else {
            Seq::empty()
        }
    }
}

/// Splits a text at white space.
pub fn words_of(s: &str) -> (r: Vec<String>)
    ensures
        texts(r@) == words(s@),
{
    broadcast use group_texts;

    let cs = chars_of(s);
    let mut r: Vec<String> = Vec::new();
    let mut i: usize = 0;
    assert(texts(r@) + words(s@.skip(0)) =~= words(s@)) by {
        assert(s@.skip(0) =~= s@);
    }
    while i < cs.len()
        invariant
            cs@ == s@,
            i <= cs@.len(),
            texts(r@) + words(s@.skip(i as int)) == words(s@),
        decreases cs.len() - i,
    {
        let ghost rest = s@.skip(i as int);
        if white(cs[i]) {
            assert(rest.skip(1) =~= s@.skip(i + 1));
            i = i + 1;
        } else {
            let start: usize = i;
            i = i + 1;
            while i < cs.len() && !white(cs[i])
                invariant
                    cs@ == s@,
                    start < i <= cs@.len(),
                    forall|k: int| start <= k < i ==> !is_white(cs@[k]),
                decreases cs.len() - i,
            {
                i = i + 1;
            }
            let ghost before = r@;
            proof {
                lemma_word_len(rest);
                let n = word_len(rest) as int;
                assert(n == i - start) by {
                    if n < i - start {
                        assert(is_white(cs@[start + n]));
                    }
                    if n > i - start {
                        assert(!is_white(rest[i - start]));
                    }
                }
                assert(rest.take(n) =~= cs@.subrange(start as int, i as int));
                assert(rest.skip(n) =~= s@.skip(i as int));
            }
            r.push(text_between(&cs, start, i));
            assert(texts(r@) + words(s@.skip(i as int)) =~= texts(before) + words(rest));
        }
    }
    assert(texts(r@) + words(s@.skip(i as int)) =~= texts(r@));
    r
}

/// A text without the white space that it begins with.
pub open spec fn trim_start(s: Seq<char>) -> Seq<char> {
    s.skip(white_len(s) as int)
}

/// A text without the white space that it ends with.
pub open spec fn trim_end(s: Seq<char>) -> Seq<char>
    decreases s.len(),
{
    if s.len() > 0 && is_white(s.last()) {
        trim_end(s.drop_last())
    } else {
        s
    }
}

/// A text without the white space around it.
pub open spec fn trim(s: Seq<char>) -> Seq<char> {
    trim_end(trim_start(s))
}

/// Removes the white space around a text.
pub fn trimmed(s: &str) -> (r: String)
    ensures
        r@ == trim(s@),
{
    let cs = chars_of(s);
    let mut from: usize = 0;
    while from < cs.len() && white(cs[from])
        invariant
            cs@ == s@,
            from <= cs@.len(),
            forall|k: int| 0 <= k < from ==> is_white(cs@[k]),
        decreases cs.len() - from,
    {
        from = from + 1;
    }
    proof {
        lemma_white_len(s@);
        assert(white_len(s@) == from) by {
            if white_len(s@) < from {
                assert(is_white(cs@[white_len(s@) as int]));
            }
        }
    }
    let mut to: usize = cs.len();
    assert(s@.subrange(from as int, to as int) =~= trim_start(s@));
    while to > from && white(cs[to - 1])
        invariant
            cs@ == s@,
            from <= to <= cs@.len(),
            trim_end(s@.subrange(from as int, to as int)) == trim(s@),
        decreases to,
    {
        assert(s@.subrange(from as int, to as int).drop_last() =~= s@.subrange(
            from as int,
            to - 1,
        ));
        to = to - 1;
    }
    text_between(&cs, from, to)
}

/// A line ended by a line feed, without the carriage return before it.
pub open spec fn without_return(s: Seq<char>) -> Seq<char> {
    if s.len() > 0 && s.last() == '\r' {
        s.drop_last()
    } else {
        s
    }
}

/// The lines of a text, each without its line ending. The last one need not be
/// ended; where it is, no empty line follows.
pub open spec fn lines(s: Seq<char>) -> Seq<Seq<char>> {
    let pieces = split_on(s, '\n');
    let ended = pieces.drop_last().map_values(|p: Seq<char>| without_return(p));
    if pieces.last().len() == 0 {
        ended
    } else {
        ended.push(pieces.last())
    }
}

/// There is always at least one piece.
pub proof fn lemma_split_nonempty(s: Seq<char>, c: char)
    ensures
        split_on(s, c).len() > 0,
{
}

/// Removes the carriage return that a text ends with.
fn drop_return(s: &str) -> (r: String)
    ensures
        r@ == without_return(s@),
{
    let cs = chars_of(s);
    if cs.len() > 0 && cs[cs.len() - 1] == '\r' {
        let r = text_between(&cs, 0, cs.len() - 1);
        assert(r@ =~= s@.drop_last());
        r
    } else {
        text_of(&cs)
    }
}

/// Splits a text into lines.
pub fn lines_of(s: &str) -> (r: Vec<String>)
    ensures
        texts(r@) == lines(s@),
{
    broadcast use group_texts;

    let pieces = split_text(s, '\n');
    let ghost ps = split_on(s@, '\n');
    let ghost ended = ps.drop_last().map_values(|p: Seq<char>| without_return(p));
    proof {
        lemma_split_nonempty(s@, '\n');
        assert(texts(pieces@).len() == pieces@.len());
    }
    let last: usize = pieces.len() - 1;
    let mut r: Vec<String> = Vec::new();
    let mut i: usize = 0;
    while i < last
        invariant
            last == pieces@.len() - 1,
            texts(pieces@) == ps,
            i <= last,
            ended == ps.drop_last().map_values(|p: Seq<char>| without_return(p)),
            texts(r@) == ended.take(i as int),
        decreases last - i,
    {
        broadcast use group_texts;

        let line = drop_return(&pieces[i]);
        assert(pieces@[i as int]@ == texts(pieces@)[i as int]);
        r.push(line);
        assert(texts(r@) =~= ended.take(i + 1));
        i = i + 1;
    }
    assert(ended.take(last as int) =~= ended);
    assert(pieces@[last as int]@ == texts(pieces@)[last as int]);
    if !pieces[last].as_str().is_empty() {
        r.push(pieces[last].clone());
    }
    r
}

/// Joins texts with `sep` between them.
pub open spec fn joined(v: Seq<Seq<char>>, sep: Seq<char>) -> Seq<char>
    decreases v.len(),
{
    if v.len() == 0 {
        Seq::empty()
    } else if v.len() == 1 {
        v[0]
    } else {
        joined(v.drop_last(), sep) + sep + v.last()
    }
}

/// Joins texts with `sep` between them.
pub fn join_texts(v: &Vec<String>, sep: &str) -> (r: String)
    ensures
        r@ == joined(texts(v@), sep@),
{
    if v.len() == 0 {
        return String::new();
    }
    let mut r = v[0].clone();
    let mut i: usize = 1;
    while i < v.len()
        invariant
            1 <= i <= v@.len(),
            r@ == joined(texts(v@).take(i as int), sep@),
        decreases v.len() - i,
    {
        r.append(sep);
        r.append(v[i].as_str());
        assert(texts(v@).take(i + 1).drop_last() =~= texts(v@).take(i as int));
        i = i + 1;
    }
    assert(texts(v@).take(i as int) =~= texts(v@));
    r
}

/// The lower-case form of an ASCII letter; any other character unchanged.
pub open spec fn ascii_lower(c: char) -> char {
    if 'A' <= c <= 'Z' {
        (c as u32 + 32) as char
    } else {
        c
    }
}

/// Whether a text has no ASCII capital.
pub open spec fn has_no_capital(s: Seq<char>) -> bool {
    forall|i: int| 0 <= i < s.len() ==> !('A' <= #[trigger] s[i] <= 'Z')
}

/// What `str::to_lowercase` makes of the characters of a text.
pub uninterp spec fn lowercase(s: Seq<char>) -> Seq<char>;

/// `str::to_lowercase`: a function of the text alone, which takes each ASCII
/// letter to its lower-case form and leaves every other ASCII character of an
/// ASCII text as it is. No ASCII capital is left in any text. What else it does
/// to other characters goes by Unicode's tables and is left unsaid.
#[verifier::external_body]
pub(crate) fn lower(s: &str) -> (r: String)
    ensures
        r@ == lowercase(s@),
        vstd::utf8::is_ascii_chars(s@) ==> r@ == s@.map_values(|c: char| ascii_lower(c)),
        has_no_capital(r@),
{
    s.to_lowercase()
}

/// The number of the character that a letter stands for when case is ignored.
pub open spec fn folded(c: char) -> int {
    ascii_lower(c) as int
}

/// Whether two texts are the same but for the case of ASCII letters.
pub open spec fn same_but_case(a: Seq<char>, b: Seq<char>) -> bool {
    a.len() == b.len() && forall|i: int| 0 <= i < a.len() ==> folded(a[i]) == folded(#[trigger] b[i])
}

/// The code of a character with ASCII case folded.
fn fold_char(c: char) -> (n: u32)
    ensures
        n == folded(c),
{
    if 'A' <= c && c <= 'Z' {
        c as u32 + 32
    } else {
        c as u32
    }
}

/// Compares two texts, ignoring the case of ASCII letters.
pub fn same_ignoring_case(a: &str, b: &str) -> (r: bool)
    ensures
        r == same_but_case(a@, b@),
{
    let x = chars_of(a);
    let y = chars_of(b);
    if x.len() != y.len() {
        return false;
    }
    let mut i: usize = 0;
    while i < x.len()
        invariant
            x@ == a@,
            y@ == b@,
            x@.len() == y@.len(),
            i <= x@.len(),
            forall|k: int| 0 <= k < i ==> folded(x@[k]) == folded(#[trigger] y@[k]),
        decreases x.len() - i,
    {
        if fold_char(x[i]) != fold_char(y[i]) {
            assert(folded(a@[i as int]) != folded(b@[i as int]));
            return false;
        }
        i = i + 1;
    }
    true
}

/// `s` without `start`, where it begins with it.
pub open spec fn without_start(s: Seq<char>, start: Seq<char>) -> Seq<char> {
    if start.is_prefix_of(s) {
        s.skip(start.len() as int)
    } else {
        s
    }
}

/// Removes `start` from the front of a text that begins with it.
pub fn drop_start(s: &str, start: &str) -> (r: String)
    ensures
        r@ == without_start(s@, start@),
{
    let cs = chars_of(s);
    let n: usize = start.unicode_len();
    if begins_with(s, start) {
        let r = text_between(&cs, n, cs.len());
        assert(r@ =~= s@.skip(n as int));
        r
    } else {
        text_of(&cs)
    }
}

/// `s` with every `from` replaced by `to`.
pub open spec fn replaced(s: Seq<char>, from: char, to: char) -> Seq<char> {
    s.map_values(|c: char| if c == from { to } else { c })
}

/// Replaces a character throughout a text.
pub fn replace_char(s: &str, from: char, to: char) -> (r: String)
    ensures
        r@ == replaced(s@, from, to),
{
    let cs = chars_of(s);
    let mut r = String::new();
    let mut i: usize = 0;
    while i < cs.len()
        invariant
            cs@ == s@,
            i <= cs@.len(),
            r@ == replaced(s@, from, to).take(i as int),
        decreases cs.len() - i,
    {
        if cs[i] == from {
            r.push(to);
        } else {
            r.push(cs[i]);
        }
        assert(r@ =~= replaced(s@, from, to).take(i + 1));
        i = i + 1;
    }
    r
}

/// Whether a character is a decimal digit.
pub open spec fn is_digit(c: char) -> bool {
    '0' <= c <= '9'
}

/// The number that a string of digits writes.
pub open spec fn digits_value(s: Seq<char>) -> nat
    decreases s.len(),
{
    if s.len() == 0 {
        0
    } else {
        digits_value(s.drop_last()) * 10 + (s.last() as nat - '0' as nat) as nat
    }
}

/// Whether a text is one or more digits, after at most one plus sign.
pub open spec fn is_number(s: Seq<char>) -> bool {
    let d = without_start(s, seq!['+']);
    d.len() > 0 && forall|i: int| 0 <= i < d.len() ==> is_digit(#[trigger] d[i])
}

/// The number that a text writes, where it writes one.
pub open spec fn parsed(s: Seq<char>) -> Option<nat> {
    if is_number(s) {
        Some(digits_value(without_start(s, seq!['+'])))
    } else {
        None
    }
}

/// The number that a text writes, where it is at most `max`.
pub open spec fn parsed_within(s: Seq<char>, max: nat) -> Option<nat> {
    match parsed(s) {
        Some(n) => if n <= max {
            Some(n)
        } else {
            None
        },
        None => None,
    }
}

/// Reads an unsigned number of at most `max`.
pub fn parse_within(s: &str, max: u64) -> (r: Option<u64>)
    ensures
        match r {
            Some(n) => parsed_within(s@, max as nat) == Some(n as nat),
            None => parsed_within(s@, max as nat) is None,
        },
{
    let cs = chars_of(s);
    let ghost d = without_start(s@, seq!['+']);
    let from: usize = if cs.len() > 0 && cs[0] == '+' {
        1
    } else {
        0
    };
    proof {
        if from == 1 {
            assert(seq!['+'].is_prefix_of(s@));
        } else {
            assert(!seq!['+'].is_prefix_of(s@)) by {
                if seq!['+'].is_prefix_of(s@) {
                    assert(s@[0] == seq!['+'][0]);
                }
            }
        }
        assert(d =~= s@.skip(from as int));
    }
    if from == cs.len() {
        return None;
    }
    let mut n: u64 = 0;
    let mut over = false;
    let mut i: usize = from;
    while i < cs.len()
        invariant
            cs@ == s@,
            from <= i <= cs@.len(),
            d == s@.skip(from as int),
            d.len() > 0,
            d == without_start(s@, seq!['+']),
            forall|k: int| 0 <= k < i - from ==> is_digit(#[trigger] d[k]),
            !over ==> n == digits_value(d.take(i - from)) && n <= max,
            over ==> digits_value(d.take(i - from)) > max,
        decreases cs.len() - i,
    {
        let c = cs[i];
        if !('0' <= c && c <= '9') {
            assert(!is_digit(d[i - from]));
            return None;
        }
        let digit: u64 = c as u64 - '0' as u64;
        let ghost before = d.take(i - from);
        let ghost after = d.take(i - from + 1);
        assert(after.drop_last() =~= before);
        assert(after.last() == c);
        if !over {
            if n > max / 10 || max - n * 10 < digit {
                over = true;
            } else {
                n = n * 10 + digit;
            }
        }
        i = i + 1;
    }
    assert(d.take(cs@.len() - from) =~= d);
    if over {
        None
    } else {
        Some(n)
    }
}

/// Reads an unsigned number that fits 32 bits.
pub fn parse_u32(s: &str) -> (r: Option<u32>)
    ensures
        match r {
            Some(n) => parsed_within(s@, u32::MAX as nat) == Some(n as nat),
            None => parsed_within(s@, u32::MAX as nat) is None,
        },
{
    match parse_within(s, u32::MAX as u64) {
        Some(n) => Some(n as u32),
        None => None,
    }
}

/// The character of a digit.
pub open spec fn digit_char(d: nat) -> char {
    ('0' as nat + d) as char
}

/// The shortest decimal writing of a number.
pub open spec fn decimal(n: nat) -> Seq<char>
    decreases n,
{
    if n < 10 {
        seq![digit_char(n)]
    } else {
        decimal(n / 10).push(digit_char(n % 10))
    }
}

/// The digits of a number read back as that number.
pub proof fn lemma_decimal_read_back(n: nat)
    ensures
        decimal(n).len() > 0,
        forall|i: int| 0 <= i < decimal(n).len() ==> is_digit(#[trigger] decimal(n)[i]),
        digits_value(decimal(n)) == n,
        parsed(decimal(n)) == Some(n),
    decreases n,
{
    let s = decimal(n);
    if n < 10 {
        assert(s.drop_last() =~= Seq::empty());
        assert(digits_value(s.drop_last()) == 0);
    } else {
        lemma_decimal_read_back(n / 10);
        assert(s.drop_last() =~= decimal(n / 10));
    }
    assert(!seq!['+'].is_prefix_of(s)) by {
        if seq!['+'].is_prefix_of(s) {
            assert(s[0] == seq!['+'][0]);
            assert(is_digit(s[0]));
        }
    }
}

/// Writes a number in decimal.
pub fn decimal_text(n: u64) -> (r: String)
    ensures
        r@ == decimal(n as nat),
    decreases n,
{
    let digit: u8 = (n % 10) as u8;
    let c = ('0' as u8 + digit) as char;
    if n < 10 {
        let mut r = String::new();
        r.push(c);
        assert(r@ =~= decimal(n as nat));
        r
    } else {
        let mut r = decimal_text(n / 10);
        r.push(c);
        r
    }
}

/// `n` times the character `c`.
pub open spec fn repeated(c: char, n: nat) -> Seq<char> {
    Seq::new(n, |i: int| c)
}

/// Repeats a character.
pub fn repeat_char(c: char, n: usize) -> (r: String)
    ensures
        r@ == repeated(c, n as nat),
{
    let mut r = String::new();
    let mut i: usize = 0;
    while i < n
        invariant
            i <= n,
            r@ == repeated(c, i as nat),
        decreases n - i,
    {
        r.push(c);
        i = i + 1;
    }
    r
}

/// The spaces that bring a text of length `len` to `width`.
pub open spec fn gap(len: nat, width: nat) -> Seq<char> {
    repeated(
        ' ',
        if len < width {
            (width - len) as nat
        } else {
            0
        },
    )
}

/// A text in a field of `width` characters, against its left edge.
pub open spec fn left(s: Seq<char>, width: nat) -> Seq<char> {
    s + gap(s.len(), width)
}

/// A text in a field of `width` characters, against its right edge.
pub open spec fn right(s: Seq<char>, width: nat) -> Seq<char> {
    gap(s.len(), width) + s
}

/// Pads a text on the right.
pub fn pad_right(s: &str, width: usize) -> (r: String)
    ensures
        r@ == left(s@, width as nat),
{
    let n: usize = s.unicode_len();
    let missing: usize = if n < width {
        width - n
    } else {
        0
    };
    let mut r = s.to_owned();
    let spaces = repeat_char(' ', missing);
    r.append(spaces.as_str());
    r
}

/// Pads a text on the left.
pub fn pad_left(s: &str, width: usize) -> (r: String)
    ensures
        r@ == right(s@, width as nat),
{
    let n: usize = s.unicode_len();
    let missing: usize = if n < width {
        width - n
    } else {
        0
    };
    let mut r = repeat_char(' ', missing);
    r.append(s);
    r
}

/// The length of a text in bytes.
pub open spec fn byte_len(s: Seq<char>) -> nat {
    vstd::utf8::encode_utf8(s).len()
}

/// The characters that the first `n` bytes of a text encode.
pub open spec fn first_bytes(s: Seq<char>, n: nat) -> Seq<char> {
    vstd::utf8::decode_utf8(vstd::utf8::encode_utf8(s).subrange(0, n as int))
}

/// Whether a text is no longer than `max` bytes, or can be cut there between two
/// characters.
pub open spec fn is_cuttable(s: Seq<char>, max: nat) -> bool {
    byte_len(s) <= max || vstd::utf8::is_char_boundary(vstd::utf8::encode_utf8(s), max as int)
}

/// A text cut to `max` bytes, with an ellipsis where something was cut off.
pub open spec fn truncated(s: Seq<char>, max: nat) -> Seq<char> {
    if byte_len(s) <= max {
        s
    } else {
        first_bytes(s, max) + "…"@
    }
}

/// Whether a text can be cut to `max` bytes.
pub fn can_truncate(s: &str, max: usize) -> (r: bool)
    ensures
        r == is_cuttable(s@, max as nat),
{
    s.as_bytes().len() <= max || s.is_char_boundary(max)
}

/// Cuts a text to `max` bytes and appends an ellipsis, where it is longer.
pub fn truncate(s: &str, max: usize) -> (r: String)
    requires
        is_cuttable(s@, max as nat),
    ensures
        r@ == truncated(s@, max as nat),
{
    if s.as_bytes().len() <= max {
        return s.to_owned();
    }
    let (head, _) = s.split_at(max);
    proof {
        vstd::utf8::encode_utf8_decode_utf8(head@);
    }
    let mut r = head.to_owned();
    r.append("…");
    r
}

/// Of a text of ASCII characters, each of which takes a byte, the first characters
/// are kept.
pub proof fn law_ascii_is_cut_by_characters(s: Seq<char>, max: nat)
    requires
        vstd::utf8::is_ascii_chars(s),
    ensures
        is_cuttable(s, max),
        truncated(s, max) == (if s.len() <= max {
            s
        } else {
            s.take(max as int) + "…"@
        }),
{
    vstd::utf8::is_ascii_chars_encode_utf8(s);
    let bytes = vstd::utf8::encode_utf8(s);
    if s.len() > max {
        let head = s.take(max as int);
        let tail = s.skip(max as int);
        assert(s =~= head + tail);
        vstd::utf8::is_ascii_chars_concat(s, head, tail);
        vstd::utf8::is_ascii_chars_encode_utf8(head);
        assert(vstd::utf8::encode_utf8(head) =~= bytes.subrange(0, max as int));
        vstd::utf8::encode_utf8_decode_utf8(head);
        vstd::utf8::encode_utf8_valid_utf8(s);
        vstd::utf8::is_char_boundary_iff_not_is_continuation_byte(bytes, max as int);
        assert(bytes[max as int] == s[max as int] as u8);
        assert(s[max as int] as u32 <= 0x7f);
        vstd::utf8::utf8_byte_ranges_bitwise(bytes[max as int]);
    }
}

/// A text occurs in another exactly where that is some text, it, and some text.
pub proof fn law_occurrences_split_the_text(hay: Seq<char>, needle: Seq<char>)
    ensures
        occurs(hay, needle) <==> exists|a: Seq<char>, b: Seq<char>| hay == #[trigger] (a + needle + b),
{
    if occurs(hay, needle) {
        let i = choose|i: int| occurs_at(hay, needle, i);
        let a = hay.take(i);
        let b = hay.skip(i + needle.len());
        assert(hay =~= a + needle + b);
    }
    if exists|a: Seq<char>, b: Seq<char>| hay == #[trigger] (a + needle + b) {
        let (a, b) = choose|a: Seq<char>, b: Seq<char>| hay == #[trigger] (a + needle + b);
        assert(hay.subrange(a.len() as int, (a.len() + needle.len()) as int) =~= needle);
        assert(occurs_at(hay, needle, a.len() as int));
    }
}

/// The pieces of a text hold no separator, and with a separator between them they are the
/// text.
pub proof fn law_pieces_make_the_text(s: Seq<char>, c: char)
    ensures
        joined(split_on(s, c), seq![c]) == s,
        forall|i: int|
            0 <= i < split_on(s, c).len() ==> !(#[trigger] split_on(s, c)[i]).contains(c),
    decreases s.len(),
{
    lemma_first_index(s, c);
    let n = first_index(s, c);
    if n < s.len() {
        let rest = s.skip(n + 1);
        law_pieces_make_the_text(rest, c);
        let parts = split_on(rest, c);
        assert(parts.len() > 0);
        lemma_join_first(s.take(n), parts, seq![c]);
        assert(s =~= s.take(n) + seq![c] + rest);
        assert forall|i: int| 0 <= i < split_on(s, c).len() implies !(
        #[trigger] split_on(s, c)[i]).contains(c) by {
            if i > 0 {
                assert(split_on(s, c)[i] == parts[i - 1]);
            } else {
                assert(split_on(s, c)[0] == s.take(n));
            }
        }
    } else {
        assert(split_on(s, c) =~= seq![s]);
    }
}

/// Joining with one text before the others puts it and a separator before them.
pub proof fn lemma_join_first(first: Seq<char>, rest: Seq<Seq<char>>, sep: Seq<char>)
    requires
        rest.len() > 0,
    ensures
        joined(seq![first] + rest, sep) == first + sep + joined(rest, sep),
    decreases rest.len(),
{
    let all = seq![first] + rest;
    if rest.len() == 1 {
        assert(all.drop_last() =~= seq![first]);
        assert(joined(seq![first], sep) == first);
        assert(joined(all, sep) == joined(all.drop_last(), sep) + sep + all.last());
    } else {
        lemma_join_first(first, rest.drop_last(), sep);
        assert(all.drop_last() =~= seq![first] + rest.drop_last());
        assert(joined(all, sep) =~= first + sep + joined(rest, sep));
    }
}

/// Trimming takes white space off both ends and nothing else: neither end of what is left
/// is white, and what was taken off is.
pub proof fn law_trimming_takes_white_space(s: Seq<char>)
    ensures
        trim(s).len() > 0 ==> !is_white(trim(s)[0]) && !is_white(trim(s).last()),
        exists|a: Seq<char>, b: Seq<char>|
            s == #[trigger] (a + trim(s) + b) && (forall|i: int|
                0 <= i < a.len() ==> is_white(#[trigger] a[i])) && (forall|i: int|
                0 <= i < b.len() ==> is_white(#[trigger] b[i])),
{
    lemma_white_len(s);
    let n = white_len(s) as int;
    let a = s.take(n);
    let t = trim_start(s);
    lemma_trim_end(t);
    let b = t.skip(trim(s).len() as int);
    assert(s =~= a + trim(s) + b);
}

proof fn lemma_trim_end(s: Seq<char>)
    ensures
        trim_end(s).len() <= s.len(),
        trim_end(s) == s.take(trim_end(s).len() as int),
        trim_end(s).len() > 0 ==> !is_white(trim_end(s).last()),
        forall|i: int| trim_end(s).len() <= i < s.len() ==> is_white(#[trigger] s[i]),
    decreases s.len(),
{
    if s.len() > 0 && is_white(s.last()) {
        let h = s.drop_last();
        lemma_trim_end(h);
        assert(trim_end(s) =~= s.take(trim_end(s).len() as int));
        assert forall|i: int| trim_end(s).len() <= i < s.len() implies is_white(
            #[trigger] s[i],
        ) by {
            if i < h.len() {
                assert(h[i] == s[i]);
            }
        }
    } else {
        assert(s =~= s.take(s.len() as int));
    }
}

/// A number is written with its last digit last and the others before it, without a
/// leading zero.
pub proof fn law_numbers_are_written_in_decimal(n: nat, d: nat)
    requires
        d < 10,
    ensures
        decimal(d).len() == 1,
        decimal(d)[0] as nat == '0' as nat + d,
        n > 0 ==> decimal(10 * n + d) == decimal(n).push(decimal(d)[0]),
        n > 0 ==> decimal(n)[0] != '0',
    decreases n,
{
    if n > 0 {
        assert((10 * n + d) / 10 == n);
        assert((10 * n + d) % 10 == d);
        if n >= 10 {
            law_numbers_are_written_in_decimal(n / 10, n % 10);
            lemma_decimal_read_back(n / 10);
            assert(decimal(n)[0] == decimal(n / 10)[0]);
        }
    }
}

/// Written numbers read back as themselves, also after a plus sign; what has any other
/// character is no number.
pub proof fn law_numbers_are_read(n: nat, max: nat, s: Seq<char>)
    ensures
        parsed(decimal(n)) == Some(n),
        parsed_within(decimal(n), max) == if n <= max {
            Some(n)
        } else {
            None
        },
        (exists|i: int| 0 < i < s.len() && !('0' <= #[trigger] s[i] <= '9')) ==> parsed(s) is None,
        s.len() == 0 ==> parsed(s) is None,
{
    lemma_decimal_read_back(n);
    if exists|i: int| 0 < i < s.len() && !('0' <= #[trigger] s[i] <= '9') {
        let i = choose|i: int| 0 < i < s.len() && !('0' <= #[trigger] s[i] <= '9');
        let d = without_start(s, seq!['+']);
        if seq!['+'].is_prefix_of(s) {
            assert(d[i - 1] == s[i]);
        } else {
            assert(d[i] == s[i]);
        }
    }
}

/// A field is as wide as asked for, or as its text; the text stands at its edge, and
/// spaces fill the rest.
pub proof fn law_fields_have_their_width(s: Seq<char>, width: nat)
    ensures
        left(s, width).len() == if s.len() < width {
            width
        } else {
            s.len()
        },
        right(s, width).len() == if s.len() < width {
            width
        } else {
            s.len()
        },
        s.is_prefix_of(left(s, width)),
        s.is_suffix_of(right(s, width)),
        forall|i: int| s.len() <= i < left(s, width).len() ==> #[trigger] left(s, width)[i] == ' ',
        forall|i: int|
            0 <= i < right(s, width).len() - s.len() ==> #[trigger] right(s, width)[i] == ' ',
{
    let l = left(s, width);
    let r = right(s, width);
    assert(s =~= l.take(s.len() as int));
    assert(s =~= r.subrange(r.len() - s.len(), r.len() as int));
}

/// Case does not matter for ASCII letters, and every other difference does.
pub proof fn law_case_is_ignored(a: Seq<char>, b: Seq<char>)
    ensures
        same_but_case(a, a),
        same_but_case(a, b) == same_but_case(b, a),
        same_but_case(a, b) ==> a.len() == b.len(),
        forall|i: int|
            same_but_case(a, b) && 0 <= i < a.len() ==> #[trigger] a[i] == b[i] || (a[i] as int
                - b[i] as int == 32 && 'A' <= b[i] <= 'Z') || (b[i] as int - a[i] as int == 32
                && 'A' <= a[i] <= 'Z'),
{
    assert forall|i: int| same_but_case(a, b) && 0 <= i < a.len() implies #[trigger] a[i] == b[i]
        || (a[i] as int - b[i] as int == 32 && 'A' <= b[i] <= 'Z') || (b[i] as int - a[i] as int
        == 32 && 'A' <= a[i] <= 'Z') by {
        assert(folded(a[i]) == folded(b[i]));
    }
    if same_but_case(a, b) {
        assert forall|i: int| 0 <= i < b.len() implies folded(b[i]) == folded(#[trigger] a[i]) by {
            assert(folded(a[i]) == folded(b[i]));
        }
    }
    if same_but_case(b, a) {
        assert forall|i: int| 0 <= i < a.len() implies folded(a[i]) == folded(#[trigger] b[i]) by {
            assert(folded(b[i]) == folded(a[i]));
        }
    }
}

/// Joining nothing gives nothing, and joining one more text adds a separator and it.
pub proof fn law_joining(v: Seq<Seq<char>>, s: Seq<char>, sep: Seq<char>)
    ensures
        joined(Seq::empty(), sep).len() == 0,
        joined(seq![s], sep) == s,
        v.len() > 0 ==> joined(v.push(s), sep) == joined(v, sep) + sep + s,
{
    assert(v.push(s).drop_last() =~= v);
}

/// Lines end at line feeds, with or without a carriage return before; a text that ends in
/// one has no empty line behind it.
pub proof fn law_lines(s: Seq<char>, t: Seq<char>)
    requires
        !s.contains('\n'),
    ensures
        lines(s) == (if s.len() == 0 {
            Seq::<Seq<char>>::empty()
        } else {
            seq![s]
        }),
        s.len() > 0 && s.last() != '\r' ==> lines(s + seq!['\n'] + t) == seq![s] + lines(t) && lines(
            s + seq!['\r', '\n'] + t,
        ) == seq![s] + lines(t),
{
    lemma_split_line(s);
    if s.len() == 0 {
        assert(lines(s) =~= Seq::empty());
    } else {
        assert(lines(s) =~= seq![s]);
        if s.last() != '\r' {
            lemma_split_first(s, t);
            let parts = split_on(t, '\n');
            let all = seq![s] + parts;
            assert(all.last() == parts.last());
            assert(lines(s + seq!['\n'] + t) =~= seq![s] + lines(t));
            let r = s.push('\r');
            assert(!r.contains('\n')) by {
                if r.contains('\n') {
                    let i = choose|i: int| 0 <= i < r.len() && r[i] == '\n';
                    assert(s[i] == '\n');
                }
            }
            lemma_split_first(r, t);
            assert(s + seq!['\r', '\n'] + t =~= r + seq!['\n'] + t);
            assert(without_return(r) =~= s);
            let more = seq![r] + parts;
            assert(more.last() == parts.last());
            assert(lines(s + seq!['\r', '\n'] + t) =~= seq![s] + lines(t));
        }
    }
}

proof fn lemma_split_line(s: Seq<char>)
    requires
        !s.contains('\n'),
    ensures
        split_on(s, '\n') == seq![s],
{
    lemma_first_index(s, '\n');
}

proof fn lemma_split_first(s: Seq<char>, t: Seq<char>)
    requires
        !s.contains('\n'),
    ensures
        split_on(s + seq!['\n'] + t, '\n') == seq![s] + split_on(t, '\n'),
{
    let all = s + seq!['\n'] + t;
    lemma_first_index(all, '\n');
    let n = first_index(all, '\n');
    assert(all[s.len() as int] == '\n');
    if n < s.len() {
        assert(all[n] == s[n]);
    }
    assert(n == s.len());
    assert(all.take(n) =~= s);
    assert(all.skip(n + 1) =~= t);
}

/// A start is dropped where it is there, and a character replaced wherever it stands.
pub proof fn law_dropping_and_replacing(s: Seq<char>, start: Seq<char>, from: char, to: char)
    requires
        from != to,
    ensures
        without_start(start + s, start) == s,
        !start.is_prefix_of(s) ==> without_start(s, start) == s,
        replaced(s, from, to).len() == s.len(),
        !replaced(s, from, to).contains(from),
        forall|i: int|
            0 <= i < s.len() && s[i] != from ==> #[trigger] replaced(s, from, to)[i] == s[i],
        forall|i: int|
            0 <= i < s.len() && s[i] == from ==> #[trigger] replaced(s, from, to)[i] == to,
{
    assert(start =~= (start + s).take(start.len() as int));
    assert((start + s).skip(start.len() as int) =~= s);
}

/// What is not longer than the limit stays whole; what is longer ends in an ellipsis.
pub proof fn law_long_texts_end_in_an_ellipsis(s: Seq<char>, max: nat)
    ensures
        byte_len(s) <= max ==> truncated(s, max) == s,
        byte_len(s) > max ==> "…"@.is_suffix_of(truncated(s, max)),
{
    if byte_len(s) > max {
        let t = truncated(s, max);
        assert("…"@ =~= t.subrange(t.len() - "…"@.len(), t.len() as int));
    }
}

/// Words are not empty and hold no white space, and one after the other they are what the
/// text holds but for its white space.
pub proof fn law_words_leave_out_the_white_space(s: Seq<char>)
    ensures
        forall|i: int| 0 <= i < words(s).len() ==> (#[trigger] words(s)[i]).len() > 0,
        forall|i: int, j: int|
            0 <= i < words(s).len() && 0 <= j < words(s)[i].len() ==> !is_white(
                #[trigger] words(s)[i][j],
            ),
        joined(words(s), Seq::empty()) == s.filter(|c: char| !is_white(c)),
    decreases s.len(),
{
    let dark = |c: char| !is_white(c);
    if s.len() == 0 {
        reveal(Seq::filter);
    } else if is_white(s[0]) {
        law_words_leave_out_the_white_space(s.skip(1));
        assert(s =~= seq![s[0]] + s.skip(1));
        Seq::filter_distributes_over_add(seq![s[0]], s.skip(1), dark);
        reveal(Seq::filter);
        let one = seq![s[0]];
        assert(one.drop_last() =~= Seq::<char>::empty());
        assert(Seq::<char>::empty().filter(dark) =~= Seq::<char>::empty());
        assert(!dark(one.last()));
        assert(one.filter(dark) =~= Seq::<char>::empty());
    } else {
        lemma_word_len(s);
        let n = word_len(s) as int;
        assert(n > 0);
        let w = s.take(n);
        let rest = s.skip(n);
        law_words_leave_out_the_white_space(rest);
        assert(s =~= w + rest);
        Seq::filter_distributes_over_add(w, rest, dark);
        lemma_filter_keeps(w, dark);
        if words(rest).len() > 0 {
            lemma_join_first(w, words(rest), Seq::empty());
            assert(w + Seq::empty() + joined(words(rest), Seq::empty()) =~= w + joined(
                words(rest),
                Seq::empty(),
            ));
        } else {
            assert(words(s) =~= seq![w]);
            assert(w + rest.filter(dark) =~= w);
        }
        assert forall|i: int, j: int|
            0 <= i < words(s).len() && 0 <= j < words(s)[i].len() implies !is_white(
            #[trigger] words(s)[i][j],
        ) by {
            if i == 0 {
                assert(words(s)[0] == w);
            } else {
                assert(words(s)[i] == words(rest)[i - 1]);
            }
        }
        assert forall|i: int| 0 <= i < words(s).len() implies (#[trigger] words(s)[i]).len()
            > 0 by {
            if i > 0 {
                assert(words(s)[i] == words(rest)[i - 1]);
            }
        }
    }
}

/// A filter that nothing fails keeps everything.
proof fn lemma_filter_keeps(s: Seq<char>, keep: spec_fn(char) -> bool)
    requires
        forall|i: int| 0 <= i < s.len() ==> keep(#[trigger] s[i]),
    ensures
        s.filter(keep) == s,
    decreases s.len(),
{
    reveal(Seq::filter);
    if s.len() > 0 {
        lemma_filter_keeps(s.drop_last(), keep);
        assert(s =~= s.drop_last().push(s.last()));
    }
}

/// The space, the tab and the line ends are white; letters, digits and ASCII signs are
/// not.
pub proof fn law_white_space(c: char)
    ensures
        c == ' ' || c == '\t' || c == '\n' || c == '\r' ==> is_white(c),
        '!' <= c <= '~' ==> !is_white(c),
        is_white(c) && (c as u32) < 128 ==> c == ' ' || '\t' <= c <= '\r',
{
}

} // verus!
