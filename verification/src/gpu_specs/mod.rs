//! GPU specifications and the matching of device names to them.
use vstd::prelude::*;

use crate::float::F64;
use crate::text;

pub mod client;
pub mod fallback;

verus! {

broadcast use vstd::string::group_string_axioms;

/// Specification for a single GPU model.
#[derive(Debug)]
pub struct GpuSpec {
    /// Canonical GPU name (e.g. "RTX 3090").
    pub name: String,
    /// Peak BF16 TFLOPS (used for MFU denominator).
    pub bf16_tflops: F64,
    /// Peak FP32 TFLOPS.
    pub fp32_tflops: F64,
    /// VRAM in GiB.
    pub vram_gib: u32,
    /// Boost clock in MHz (for normalization reference).
    pub boost_clock_mhz: u32,
}

impl Clone for GpuSpec {
    fn clone(&self) -> (r: Self)
        ensures
            r == *self,
    {
        GpuSpec {
            name: self.name.clone(),
            bf16_tflops: self.bf16_tflops,
            fp32_tflops: self.fp32_tflops,
            vram_gib: self.vram_gib,
            boost_clock_mhz: self.boost_clock_mhz,
        }
    }
}

/// Anything that can resolve a GPU name to its spec.
pub trait SpecsRepository {
    /// The specs that names are matched against.
    spec fn known(&self) -> Seq<GpuSpec>;

    /// The known spec that matches a device name best.
    fn get_by_name(&self, name: &str) -> (r: Option<GpuSpec>)
        ensures
            is_best_match(self.known(), name@, r),
    ;
}

/// Whether a token gives a memory size, such as "80gb".
pub open spec fn is_memory_size(token: Seq<char>) -> bool {
    "gb"@.is_suffix_of(token) && text::parsed_within(
        token.take(token.len() - 2),
        u32::MAX as nat,
    ) is Some
}

/// Whether a token says nothing of the model.
pub open spec fn is_noise(token: Seq<char>) -> bool {
    is_memory_size(token) || token == "gpu"@
}

/// The text of a device name without the vendor and product-line prefixes.
pub open spec fn without_vendor(lower: Seq<char>) -> Seq<char> {
    text::without_start(
        text::without_start(
            text::without_start(text::without_start(lower, "nvidia "@), "geforce "@),
            "tesla "@,
        ),
        "apple "@,
    )
}

/// The tokens of a device name that matter for matching.
pub open spec fn name_tokens(name: Seq<char>) -> Seq<Seq<char>> {
    text::words(text::replaced(without_vendor(text::lowercase(name)), '-', ' ')).filter(
        |t: Seq<char>| !is_noise(t),
    )
}

/// A device name ready for matching.
pub open spec fn normalized(name: Seq<char>) -> Seq<char> {
    text::joined(name_tokens(name), " "@)
}

/// Whether a token gives a memory size.
pub fn is_memory_size_token(token: &str) -> (r: bool)
    ensures
        r == is_memory_size(token@),
{
    proof {
        reveal_strlit("gb");
    }
    if !text::finishes_with(token, "gb") {
        return false;
    }
    let cs = text::chars_of(token);
    let head = text::text_between(&cs, 0, cs.len() - 2);
    assert(head@ =~= token@.take(token@.len() - 2));
    match text::parse_u32(head.as_str()) {
        Some(_) => true,
        None => false,
    }
}

/// Whether a text has neither an ASCII capital nor a hyphen.
pub open spec fn is_plain(s: Seq<char>) -> bool {
    text::has_no_capital(s) && !s.contains('-')
}

/// Words of a plain text are plain.
proof fn lemma_plain_words(s: Seq<char>)
    requires
        is_plain(s),
    ensures
        forall|i: int| 0 <= i < text::words(s).len() ==> is_plain(#[trigger] text::words(s)[i]),
    decreases s.len(),
{
    if s.len() > 0 && text::is_white(s[0]) {
        lemma_plain_words(s.skip(1));
        assert(text::words(s) == text::words(s.skip(1)));
    } else if s.len() > 0 {
        let n = text::word_len(s) as int;
        if 0 < n <= s.len() {
            lemma_plain_words(s.skip(n));
            let rest = text::words(s.skip(n));
            assert(is_plain(s.take(n)));
            assert(text::words(s) == seq![s.take(n)] + rest);
            assert forall|i: int| 0 <= i < text::words(s).len() implies is_plain(
                #[trigger] text::words(s)[i],
            ) by {
                if i > 0 {
                    assert(text::words(s)[i] == rest[i - 1]);
                }
            }
        }
    }
}

/// Plain texts with spaces between them make a plain text.
proof fn lemma_plain_joined(v: Seq<Seq<char>>)
    requires
        forall|i: int| 0 <= i < v.len() ==> is_plain(#[trigger] v[i]),
    ensures
        is_plain(text::joined(v, " "@)),
    decreases v.len(),
{
    reveal_strlit(" ");
    if v.len() > 1 {
        lemma_plain_joined(v.drop_last());
        assert(is_plain(v[v.len() - 1]));
        let head = text::joined(v.drop_last(), " "@);
        let all = text::joined(v, " "@);
        assert(all == head + " "@ + v.last());
        assert forall|i: int| 0 <= i < all.len() implies !('A' <= #[trigger] all[i] <= 'Z')
            && all[i] != '-' by {
            if i < head.len() {
                assert(all[i] == head[i]);
            } else if i > head.len() {
                assert(all[i] == v.last()[i - head.len() - 1]);
            }
        }
    } else if v.len() == 1 {
        assert(is_plain(v[0]));
    }
}

/// A device name whose lower-case form has no ASCII capital normalises to a plain text.
proof fn lemma_plain_normalized(name: Seq<char>)
    requires
        text::has_no_capital(text::lowercase(name)),
    ensures
        is_plain(normalized(name)),
{
    let s = without_vendor(text::lowercase(name));
    let spaced = text::replaced(s, '-', ' ');
    let all = text::words(spaced);
    assert(text::has_no_capital(s));
    assert forall|i: int| 0 <= i < spaced.len() implies !('A' <= #[trigger] spaced[i] <= 'Z')
        && spaced[i] != '-' by {
        assert(!('A' <= s[i] <= 'Z'));
    }
    lemma_plain_words(spaced);
    let keep = |t: Seq<char>| !is_noise(t);
    let kept = name_tokens(name);
    assert forall|i: int| 0 <= i < kept.len() implies is_plain(#[trigger] kept[i]) by {
        all.lemma_filter_contains_rev(keep, kept[i]);
    }
    lemma_plain_joined(kept);
}

/// Whether a text is one word.
spec fn is_word(t: Seq<char>) -> bool {
    t.len() > 0 && forall|i: int| 0 <= i < t.len() ==> !text::is_white(#[trigger] t[i])
}

/// The first word of a text ends in the text, or at the space behind it.
proof fn lemma_first_word(a: Seq<char>, b: Seq<char>)
    ensures
        text::word_len(a) <= a.len(),
        a.len() > 0 && !text::is_white(a[0]) ==> is_word(a.take(text::word_len(a) as int)),
        is_word(a) ==> text::word_len(a) == a.len(),
        text::word_len(a + (seq![' '] + b)) == text::word_len(a),
{
    let all = a + (seq![' '] + b);
    let n = text::word_len(a) as int;
    let m = text::word_len(all) as int;
    text::lemma_word_len(a);
    text::lemma_word_len(all);
    assert(text::is_white(all[n])) by {
        assert(all[n] == if n < a.len() {
            a[n]
        } else {
            ' '
        });
    }
    if m < n {
        assert(all[m] == a[m]);
    }
}

/// The words of two texts with a space between them are those of both.
proof fn lemma_words_around_space(a: Seq<char>, b: Seq<char>)
    ensures
        text::words(a + (seq![' '] + b)) == text::words(a) + text::words(b),
        forall|i: int| 0 <= i < text::words(a).len() ==> is_word(#[trigger] text::words(a)[i]),
    decreases a.len(),
{
    let all = a + (seq![' '] + b);
    lemma_first_word(a, b);
    if a.len() == 0 {
        assert(all[0] == ' ');
        assert(all.skip(1) =~= b);
        assert(text::words(all) =~= text::words(a) + text::words(b));
    } else if text::is_white(a[0]) {
        assert(all[0] == a[0]);
        assert(all.skip(1) =~= a.skip(1) + (seq![' '] + b));
        lemma_words_around_space(a.skip(1), b);
        assert(text::words(a) == text::words(a.skip(1)));
    } else {
        let n = text::word_len(a) as int;
        assert(all[0] == a[0]);
        assert(all.take(n) =~= a.take(n));
        assert(all.skip(n) =~= a.skip(n) + (seq![' '] + b));
        lemma_words_around_space(a.skip(n), b);
        assert(text::words(a) == seq![a.take(n)] + text::words(a.skip(n)));
        assert(text::words(all) =~= text::words(a) + text::words(b));
        assert forall|i: int| 0 <= i < text::words(a).len() implies is_word(
            #[trigger] text::words(a)[i],
        ) by {
            if i > 0 {
                assert(text::words(a)[i] == text::words(a.skip(n))[i - 1]);
            }
        }
    }
}

/// Words with spaces between them are the words of the text.
proof fn lemma_words_of_joined(v: Seq<Seq<char>>)
    requires
        forall|i: int| 0 <= i < v.len() ==> is_word(#[trigger] v[i]),
    ensures
        text::words(text::joined(v, " "@)) == v,
    decreases v.len(),
{
    reveal_strlit(" ");
    if v.len() == 0 {
        assert(text::words(text::joined(v, " "@)) =~= v);
    } else {
        let last = v[v.len() - 1];
        assert(is_word(last));
        lemma_first_word(last, Seq::empty());
        assert(last.take(last.len() as int) =~= last);
        assert(text::words(last.skip(last.len() as int)) =~= Seq::empty());
        assert(text::words(last) =~= seq![last]);
        if v.len() == 1 {
            assert(v =~= seq![last]);
        } else {
            let head = text::joined(v.drop_last(), " "@);
            lemma_words_of_joined(v.drop_last());
            lemma_words_around_space(head, last);
            assert(" "@ =~= seq![' ']);
            assert(text::joined(v, " "@) =~= head + (seq![' '] + last));
            assert(v =~= v.drop_last() + seq![last]);
        }
    }
}

/// The words of a normalised device name are the tokens that matter: none of them is a
/// memory size or the word "gpu".
pub proof fn law_normalized_names_have_no_noise(name: Seq<char>, i: int)
    requires
        0 <= i < text::words(normalized(name)).len(),
    ensures
        text::words(normalized(name)) == name_tokens(name),
        !is_noise(text::words(normalized(name))[i]),
{
    let spaced = text::replaced(without_vendor(text::lowercase(name)), '-', ' ');
    let all = text::words(spaced);
    let keep = |t: Seq<char>| !is_noise(t);
    let kept = name_tokens(name);
    lemma_words_around_space(spaced, Seq::empty());
    assert forall|k: int| 0 <= k < kept.len() implies is_word(#[trigger] kept[k]) by {
        all.lemma_filter_contains_rev(keep, kept[k]);
    }
    lemma_words_of_joined(kept);
    all.lemma_filter_pred(keep, i);
}

/// Normalises a device name ready for matching against spec-DB keys.
///
/// Strips vendor and product-line prefixes, replaces hyphens, and drops
/// memory-size tokens and the word "gpu", so that the remaining tokens can be
/// matched against short canonical keys such as "RTX 3090" or "A100 SXM".
///
/// # Examples
/// ```text
/// "NVIDIA GeForce RTX 3090"     →  "rtx 3090"
/// "NVIDIA A100-SXM4-80GB"       →  "a100 sxm4"
/// "Tesla T4"                    →  "t4"
/// "NVIDIA Tesla V100-SXM2-32GB" →  "v100 sxm2"
/// "Apple M3 Max GPU"            →  "m3 max"
/// ```
pub fn normalize_for_match(name: &str) -> (r: String)
    ensures
        r@ == normalized(name@),
        is_plain(r@),
{
    broadcast use text::group_texts;

    let lower = text::lower(name);
    proof {
        lemma_plain_normalized(name@);
    }
    let s = text::drop_start(lower.as_str(), "nvidia ");
    let s = text::drop_start(s.as_str(), "geforce ");
    let s = text::drop_start(s.as_str(), "tesla ");
    let s = text::drop_start(s.as_str(), "apple ");
    let spaced = text::replace_char(s.as_str(), '-', ' ');
    let all = text::words_of(spaced.as_str());
    let ghost keep = |t: Seq<char>| !is_noise(t);
    let ghost tokens = text::texts(all@);
    let mut kept: Vec<String> = Vec::new();
    let mut i: usize = 0;
    proof {
        reveal(Seq::filter);
        assert(tokens.take(0) =~= Seq::empty());
    }
    while i < all.len()
        invariant
            i <= all@.len(),
            tokens == text::texts(all@),
            keep == (|t: Seq<char>| !is_noise(t)),
            text::texts(kept@) == tokens.take(i as int).filter(keep),
        decreases all.len() - i,
    {
        broadcast use text::group_texts;

        proof {
            reveal(Seq::filter);
            assert(tokens.take(i + 1).drop_last() =~= tokens.take(i as int));
            assert(tokens.take(i + 1).last() == all@[i as int]@);
        }
        if !is_memory_size_token(all[i].as_str()) && !text::same_text(all[i].as_str(), "gpu") {
            kept.push(all[i].clone());
        }
        i = i + 1;
    }
    assert(tokens.take(i as int) =~= tokens);
    text::join_texts(&kept, " ")
}

/// Whether one of `tokens` begins with `start`.
pub open spec fn begins_one(tokens: Seq<Seq<char>>, start: Seq<char>) -> bool {
    exists|j: int| 0 <= j < tokens.len() && #[trigger] start.is_prefix_of(tokens[j])
}

/// Whether every token of a spec begins some token of a query.
pub open spec fn all_begin(spec_tokens: Seq<Seq<char>>, query: Seq<Seq<char>>) -> bool {
    forall|i: int| 0 <= i < spec_tokens.len() ==> begins_one(query, #[trigger] spec_tokens[i])
}

/// The number of characters of a list of tokens.
pub open spec fn total_len(tokens: Seq<Seq<char>>) -> nat
    decreases tokens.len(),
{
    if tokens.len() == 0 {
        0
    } else {
        total_len(tokens.drop_last()) + tokens.last().len()
    }
}

/// How well a spec name matches a normalised query: the number of its characters
/// where each of its tokens begins a token of the query, else zero.
pub open spec fn score(spec_name: Seq<char>, query: Seq<char>) -> nat {
    let spec_tokens = text::words(text::lowercase(spec_name));
    if all_begin(spec_tokens, text::words(query)) {
        total_len(spec_tokens)
    } else {
        0
    }
}

/// A list of tokens with another before it has the characters of both.
proof fn lemma_total_len_cons(t: Seq<char>, rest: Seq<Seq<char>>)
    ensures
        total_len(seq![t] + rest) == t.len() + total_len(rest),
    decreases rest.len(),
{
    let all = seq![t] + rest;
    if rest.len() == 0 {
        assert(all.drop_last() =~= Seq::empty());
        assert(total_len(all.drop_last()) == 0);
    } else {
        lemma_total_len_cons(t, rest.drop_last());
        assert(all.drop_last() =~= seq![t] + rest.drop_last());
    }
}

/// The words of a text hold no more characters than the text.
proof fn lemma_words_fit(s: Seq<char>)
    ensures
        total_len(text::words(s)) <= s.len(),
    decreases s.len(),
{
    if s.len() == 0 {
    } else if text::is_white(s[0]) {
        lemma_words_fit(s.skip(1));
    } else {
        text::lemma_word_len(s);
        let n = text::word_len(s) as int;
        lemma_words_fit(s.skip(n));
        lemma_total_len_cons(s.take(n), text::words(s.skip(n)));
    }
}

/// The characters of the first tokens are no more than those of all.
proof fn lemma_total_len_prefix(tokens: Seq<Seq<char>>, n: int)
    requires
        0 <= n <= tokens.len(),
    ensures
        total_len(tokens.take(n)) <= total_len(tokens),
    decreases tokens.len(),
{
    if n < tokens.len() {
        lemma_total_len_prefix(tokens.drop_last(), n);
        assert(tokens.drop_last().take(n) =~= tokens.take(n));
    } else {
        assert(tokens.take(n) =~= tokens);
    }
}

/// Whether one of the tokens begins with `start`.
fn some_begins(tokens: &Vec<String>, start: &str) -> (r: bool)
    ensures
        r == begins_one(text::texts(tokens@), start@),
{
    let mut j: usize = 0;
    while j < tokens.len()
        invariant
            j <= tokens@.len(),
            forall|k: int|
                0 <= k < j ==> !#[trigger] start@.is_prefix_of(text::texts(tokens@)[k]),
        decreases tokens.len() - j,
    {
        if text::begins_with(tokens[j].as_str(), start) {
            assert(start@.is_prefix_of(text::texts(tokens@)[j as int]));
            return true;
        }
        assert(text::texts(tokens@)[j as int] == tokens@[j as int]@);
        j = j + 1;
    }
    false
}

/// Scores how well `spec_name` matches `normalized_query`.
///
/// All tokens in the spec name must prefix-match at least one token in
/// `normalized_query`. A score of 0 means no match. Higher scores indicate
/// more-specific matches, allowing "A10G" to beat "A10" when the query is "A10G".
pub fn match_score(spec_name: &str, normalized_query: &str) -> (r: usize)
    ensures
        r == score(spec_name@, normalized_query@),
{
    let lower = text::lower(spec_name);
    let size: usize = lower.as_str().unicode_len();
    let spec_tokens = text::words_of(lower.as_str());
    let query_tokens = text::words_of(normalized_query);
    let ghost st = text::texts(spec_tokens@);
    let ghost qt = text::texts(query_tokens@);
    proof {
        lemma_words_fit(lower@);
    }
    let mut total: usize = 0;
    let mut i: usize = 0;
    while i < spec_tokens.len()
        invariant
            i <= spec_tokens@.len(),
            st == text::texts(spec_tokens@),
            st == text::words(text::lowercase(spec_name@)),
            qt == text::texts(query_tokens@),
            qt == text::words(normalized_query@),
            total == total_len(st.take(i as int)),
            total_len(st) <= size,
            forall|k: int| 0 <= k < i ==> begins_one(qt, #[trigger] st[k]),
        decreases spec_tokens.len() - i,
    {
        let token = spec_tokens[i].as_str();
        assert(token@ == st[i as int]);
        if !some_begins(&query_tokens, token) {
            return 0;
        }
        proof {
            assert(st.take(i + 1).drop_last() =~= st.take(i as int));
            assert(st.take(i + 1).last() == token@);
            lemma_total_len_prefix(st, i + 1);
        }
        total = total + token.unicode_len();
        i = i + 1;
    }
    assert(st.take(i as int) =~= st);
    total
}

/// The score of the spec at an index for a normalised query.
pub open spec fn score_at(specs: Seq<GpuSpec>, query: Seq<char>, i: int) -> nat {
    score(specs[i].name@, query)
}

/// Whether the spec at index `i` matches a query, no other matches it better,
/// and no later one as well.
pub open spec fn wins(specs: Seq<GpuSpec>, query: Seq<char>, i: int) -> bool {
    &&& 0 <= i < specs.len()
    &&& score_at(specs, query, i) > 0
    &&& forall|j: int|
        0 <= j < specs.len() ==> #[trigger] score_at(specs, query, j) <= score_at(specs, query, i)
    &&& forall|j: int|
        i < j < specs.len() ==> #[trigger] score_at(specs, query, j) < score_at(specs, query, i)
}

/// Whether `found` is what a list of specs gives for a device name: the winner,
/// or nothing where no spec matches.
pub open spec fn is_best_match(
    specs: Seq<GpuSpec>,
    name: Seq<char>,
    found: Option<GpuSpec>,
) -> bool {
    let query = normalized(name);
    match found {
        Some(spec) => exists|i: int| #[trigger] wins(specs, query, i) && spec == specs[i],
        None => forall|i: int|
            0 <= i < specs.len() ==> #[trigger] score_at(specs, query, i) == 0,
    }
}

/// A device name has one best match.
pub proof fn law_best_match_is_unique(
    specs: Seq<GpuSpec>,
    name: Seq<char>,
    a: Option<GpuSpec>,
    b: Option<GpuSpec>,
)
    requires
        is_best_match(specs, name, a),
        is_best_match(specs, name, b),
    ensures
        a == b,
{
    let query = normalized(name);
    if a is Some && b is Some {
        let i = choose|i: int| #[trigger] wins(specs, query, i) && a->0 == specs[i];
        let j = choose|j: int| #[trigger] wins(specs, query, j) && b->0 == specs[j];
        assert(score_at(specs, query, i) == score_at(specs, query, j));
    } else if a is Some {
        let i = choose|i: int| #[trigger] wins(specs, query, i) && a->0 == specs[i];
        assert(score_at(specs, query, i) == 0);
    } else if b is Some {
        let j = choose|j: int| #[trigger] wins(specs, query, j) && b->0 == specs[j];
        assert(score_at(specs, query, j) == 0);
    }
}

/// Of two spec names that match a query, the one with more characters scores
/// higher.
pub proof fn law_longer_match_wins(a: Seq<char>, b: Seq<char>, query: Seq<char>)
    requires
        score(a, query) > 0,
        score(b, query) > 0,
        total_len(text::words(text::lowercase(a))) < total_len(text::words(text::lowercase(b))),
    ensures
        score(a, query) < score(b, query),
{
}

/// A spec name with a token that begins no token of a query never matches it, so
/// that names of one vendor's family do not match those of another.
pub proof fn law_missing_token_never_matches(name: Seq<char>, query: Seq<char>, i: int)
    requires
        0 <= i < text::words(text::lowercase(name)).len(),
        !begins_one(text::words(query), text::words(text::lowercase(name))[i]),
    ensures
        score(name, query) == 0,
{
}

/// Returns the best-matching spec from `specs` for the given device name.
///
/// Returns `None` when no spec scores above zero, i.e. the GPU is entirely
/// unknown to the database.
pub fn find_best_match<'a>(specs: &'a Vec<GpuSpec>, query: &str) -> (r: Option<&'a GpuSpec>)
    ensures
        match r {
            Some(spec) => is_best_match(specs@, query@, Some(*spec)),
            None => is_best_match(specs@, query@, None),
        },
{
    let normalised = normalize_for_match(query);
    let ghost q = normalized(query@);
    let mut best: Option<usize> = None;
    let mut best_score: usize = 0;
    let mut i: usize = 0;
    while i < specs.len()
        invariant
            i <= specs@.len(),
            normalised@ == q,
            forall|j: int| 0 <= j < i ==> #[trigger] score_at(specs@, q, j) <= best_score,
            match best {
                Some(b) => b < i && best_score > 0 && score_at(specs@, q, b as int) == best_score
                    && forall|j: int|
                    b < j < i ==> #[trigger] score_at(specs@, q, j) < best_score,
                None => best_score == 0,
            },
        decreases specs.len() - i,
    {
        let s: usize = match_score(specs[i].name.as_str(), normalised.as_str());
        assert(s == score_at(specs@, q, i as int));
        if s > 0 && s >= best_score {
            best = Some(i);
            best_score = s;
        }
        i = i + 1;
    }
    match best {
        Some(b) => {
            assert(wins(specs@, q, b as int));
            Some(&specs[b])
        },
        None => None,
    }
}

/// The bits of 20 in double precision.
pub const TWENTY: u64 = 0x4034_0000_0000_0000;

/// What is assumed of a GPU that no repository knows.
pub open spec fn is_default_spec(spec: GpuSpec, name: Seq<char>) -> bool {
    &&& spec.name@ == name
    &&& spec.bf16_tflops == F64::of(TWENTY)
    &&& spec.fp32_tflops == F64::of(TWENTY)
    &&& spec.vram_gib == 16
    &&& spec.boost_clock_mhz == 1800
}

/// Whether `spec` is what two repositories give for a device name: the match of the first,
/// else that of the second, else the default.
pub open spec fn is_resolved(
    remote: Seq<GpuSpec>,
    baked_in: Seq<GpuSpec>,
    name: Seq<char>,
    spec: GpuSpec,
) -> bool {
    is_best_match(remote, name, Some(spec)) || (is_best_match(remote, name, None) && (
    is_best_match(baked_in, name, Some(spec)) || (is_best_match(baked_in, name, None)
        && is_default_spec(spec, name))))
}

/// Resolves a spec: the remote or cached specs first, then the baked-in ones,
/// then a default under the given name.
pub fn resolve(
    remote: &client::HttpSpecsClient,
    baked_in: &fallback::FallbackRepository,
    name: &str,
) -> (r: GpuSpec)
    ensures
        is_resolved(remote.known(), baked_in.known(), name@, r),
{
    match remote.get_by_name(name) {
        Some(spec) => {
            return spec;
        },
        None => {},
    }
    match baked_in.get_by_name(name) {
        Some(spec) => {
            return spec;
        },
        None => {},
    }
    GpuSpec {
        name: name.to_owned(),
        bf16_tflops: F64::of(TWENTY),
        fp32_tflops: F64::of(TWENTY),
        vram_gib: 16,
        boost_clock_mhz: 1800,
    }
}

/// A spec name matches where each of its words begins one of the query's; it then scores
/// the number of its characters that are not white.
pub proof fn law_scores_count_the_characters(spec_name: Seq<char>, query: Seq<char>)
    ensures
        score(spec_name, query) > 0 ==> score(spec_name, query) == text::lowercase(
            spec_name,
        ).filter(|c: char| !text::is_white(c)).len(),
        (forall|i: int|
            0 <= i < text::words(text::lowercase(spec_name)).len() ==> exists|j: int|
                0 <= j < text::words(query).len() && (
                #[trigger] text::words(text::lowercase(spec_name))[i]).is_prefix_of(
                    #[trigger] text::words(query)[j],
                )) ==> score(spec_name, query) == text::lowercase(spec_name).filter(
            |c: char| !text::is_white(c),
        ).len(),
        (exists|i: int|
            0 <= i < text::words(text::lowercase(spec_name)).len() && forall|j: int|
                0 <= j < text::words(query).len() ==> !(
                #[trigger] text::words(text::lowercase(spec_name))[i]).is_prefix_of(
                    #[trigger] text::words(query)[j],
                )) ==> score(spec_name, query) == 0,
{
    let st = text::words(text::lowercase(spec_name));
    let qt = text::words(query);
    text::law_words_leave_out_the_white_space(text::lowercase(spec_name));
    lemma_total_len_joined(st);
    if exists|i: int|
        0 <= i < st.len() && forall|j: int|
            0 <= j < qt.len() ==> !(#[trigger] st[i]).is_prefix_of(#[trigger] qt[j]) {
        let i = choose|i: int|
            0 <= i < st.len() && forall|j: int|
                0 <= j < qt.len() ==> !(#[trigger] st[i]).is_prefix_of(#[trigger] qt[j]);
        assert(!begins_one(qt, st[i]));
    }
    if forall|i: int|
        0 <= i < st.len() ==> exists|j: int|
            0 <= j < qt.len() && (#[trigger] st[i]).is_prefix_of(#[trigger] qt[j]) {
        assert forall|i: int| 0 <= i < st.len() implies begins_one(qt, #[trigger] st[i]) by {
            let j = choose|j: int|
                0 <= j < qt.len() && st[i].is_prefix_of(#[trigger] qt[j]);
            assert(st[i].is_prefix_of(qt[j]));
        }
    }
}

proof fn lemma_total_len_joined(tokens: Seq<Seq<char>>)
    ensures
        total_len(tokens) == text::joined(tokens, Seq::empty()).len(),
    decreases tokens.len(),
{
    if tokens.len() > 0 {
        lemma_total_len_joined(tokens.drop_last());
        if tokens.len() == 1 {
            assert(total_len(tokens.drop_last()) == 0);
        }
    }
}

/// The match is a known spec that scores above zero and as high as any, and the last that
/// does; there is none exactly where every score is zero.
pub proof fn law_best_match_scores_highest(
    specs: Seq<GpuSpec>,
    name: Seq<char>,
    found: Option<GpuSpec>,
)
    requires
        is_best_match(specs, name, found),
    ensures
        found matches Some(s) ==> specs.contains(s) && score(s.name@, normalized(name)) > 0,
        found matches Some(s) ==> forall|i: int|
            0 <= i < specs.len() ==> score((#[trigger] specs[i]).name@, normalized(name)) <= score(
                s.name@,
                normalized(name),
            ),
        found matches Some(s) ==> forall|i: int|
            0 <= i < specs.len() && score((#[trigger] specs[i]).name@, normalized(name)) == score(
                s.name@,
                normalized(name),
            ) ==> exists|k: int| i <= k < specs.len() && #[trigger] specs[k] == s,
        found is None <==> forall|i: int|
            0 <= i < specs.len() ==> score((#[trigger] specs[i]).name@, normalized(name)) == 0,
{
    let query = normalized(name);
    assert forall|i: int| 0 <= i < specs.len() implies score(
        (#[trigger] specs[i]).name@,
        query,
    ) == score_at(specs, query, i) by {}
    match found {
        Some(s) => {
            let w = choose|i: int| #[trigger] wins(specs, query, i) && s == specs[i];
            assert(score_at(specs, query, w) > 0);
            assert forall|i: int| 0 <= i < specs.len() implies score(
                (#[trigger] specs[i]).name@,
                query,
            ) <= score(s.name@, query) by {
                assert(score_at(specs, query, i) <= score_at(specs, query, w));
            }
            assert forall|i: int|
                0 <= i < specs.len() && score((#[trigger] specs[i]).name@, query) == score(
                    s.name@,
                    query,
                ) implies exists|k: int| i <= k < specs.len() && #[trigger] specs[k] == s by {
                if i > w {
                    assert(score_at(specs, query, i) < score_at(specs, query, w));
                }
                assert(specs[w] == s);
            }
        },
        None => {
            assert forall|i: int| 0 <= i < specs.len() implies score(
                (#[trigger] specs[i]).name@,
                query,
            ) == 0 by {
                assert(score_at(specs, query, i) == 0);
            }
        },
    }
}

/// A lower-case name goes without "nvidia", "geforce", "tesla" and "apple" before it, and
/// is left as it is where none of them begins it.
pub proof fn law_vendors_are_dropped(s: Seq<char>)
    requires
        !"nvidia "@.is_prefix_of(s),
        !"geforce "@.is_prefix_of(s),
        !"tesla "@.is_prefix_of(s),
        !"apple "@.is_prefix_of(s),
    ensures
        without_vendor(s) == s,
        without_vendor("nvidia "@ + s) == s,
        without_vendor("geforce "@ + s) == s,
        without_vendor("tesla "@ + s) == s,
        without_vendor("apple "@ + s) == s,
        without_vendor("nvidia "@ + ("geforce "@ + s)) == s,
        without_vendor("nvidia "@ + ("tesla "@ + s)) == s,
{
    reveal_strlit("nvidia ");
    reveal_strlit("geforce ");
    reveal_strlit("tesla ");
    reveal_strlit("apple ");
    let n = "nvidia "@;
    let g = "geforce "@;
    let t = "tesla "@;
    let a = "apple "@;
    lemma_without(n, s);
    lemma_without(g, s);
    lemma_without(t, s);
    lemma_without(a, s);
    lemma_without(n, g + s);
    lemma_without(n, t + s);
    lemma_other_start(n, g, s);
    lemma_other_start(n, t, s);
    lemma_other_start(n, a, s);
    lemma_other_start(g, t, s);
    lemma_other_start(g, a, s);
    lemma_other_start(t, a, s);
}

proof fn lemma_without(start: Seq<char>, s: Seq<char>)
    ensures
        text::without_start(start + s, start) == s,
{
    assert(start =~= (start + s).take(start.len() as int));
    assert((start + s).skip(start.len() as int) =~= s);
}

proof fn lemma_other_start(start: Seq<char>, other: Seq<char>, s: Seq<char>)
    requires
        start.len() > 0,
        other.len() > 0,
        start[0] != other[0],
    ensures
        text::without_start(other + s, start) == other + s,
{
    if start.is_prefix_of(other + s) {
        assert((other + s)[0] == start[0]);
    }
}

/// A number with "gb" behind it is a memory size; that and "gpu" alone are noise.
pub proof fn law_noise(n: nat, token: Seq<char>)
    ensures
        is_memory_size(text::decimal(n) + "gb"@) <==> n <= 0xffff_ffff,
        n <= 0xffff_ffff ==> is_noise(text::decimal(n) + "gb"@),
        is_noise("gpu"@),
        is_noise(token) && token != "gpu"@ ==> token.len() >= 3 && "gb"@.is_suffix_of(token),
{
    reveal_strlit("gb");
    let d = text::decimal(n);
    let t = d + "gb"@;
    text::law_numbers_are_read(n, 0xffff_ffff, Seq::empty());
    assert(t.take(t.len() - 2) =~= d);
    assert("gb"@ =~= t.subrange(t.len() - 2, t.len() as int));
    if is_memory_size(token) {
        text::law_numbers_are_read(0, 0, token.take(token.len() - 2));
    }
}

/// The remote match comes before the baked-in one, and that before the default: 20 TFLOPS,
/// 16 GiB and 1800 MHz under the device's own name.
pub proof fn law_remote_specs_come_first(
    remote: Seq<GpuSpec>,
    baked_in: Seq<GpuSpec>,
    name: Seq<char>,
    a: Option<GpuSpec>,
    b: Option<GpuSpec>,
    spec: GpuSpec,
)
    requires
        is_best_match(remote, name, a),
        is_best_match(baked_in, name, b),
        is_resolved(remote, baked_in, name, spec),
    ensures
        a is Some ==> spec == a->0,
        a is None && b is Some ==> spec == b->0,
        a is None && b is None ==> spec.name@ == name && spec.vram_gib == 16
            && spec.boost_clock_mhz == 1800 && spec.bf16_tflops == F64::of(0x4034_0000_0000_0000)
            && spec.fp32_tflops == F64::of(0x4034_0000_0000_0000),
{
    if is_best_match(remote, name, Some(spec)) {
        law_best_match_is_unique(remote, name, a, Some(spec));
    } else {
        law_best_match_is_unique(remote, name, a, None);
        if is_best_match(baked_in, name, Some(spec)) {
            law_best_match_is_unique(baked_in, name, b, Some(spec));
        } else {
            law_best_match_is_unique(baked_in, name, b, None);
        }
    }
}

} // verus!
