//! Character-level helpers, decimal rendering and the slug rules.

use rand::Rng;
use vstd::prelude::*;

verus! {

// ---------------------------------------------------------------------------
// Characters
// ---------------------------------------------------------------------------

pub open spec fn is_ascii_char(c: char) -> bool {
    (c as u32) < 128
}

pub open spec fn is_ascii_seq(s: Seq<char>) -> bool {
    forall|i: int| 0 <= i < s.len() ==> is_ascii_char(#[trigger] s[i])
}

pub open spec fn is_ascii_digit(c: char) -> bool {
    '0' <= c && c <= '9'
}

pub open spec fn is_ascii_lower(c: char) -> bool {
    'a' <= c && c <= 'z'
}

pub open spec fn is_ascii_upper(c: char) -> bool {
    'A' <= c && c <= 'Z'
}

pub open spec fn is_ascii_alnum(c: char) -> bool {
    is_ascii_digit(c) || is_ascii_lower(c) || is_ascii_upper(c)
}

/// ASCII whitespace as Unicode's `White_Space` property has it:
/// U+0009 to U+000D and the space.
pub open spec fn is_ascii_white(c: char) -> bool {
    c == ' ' || ('\t' <= c && c <= '\r')
}

/// The lower-case form of an ASCII character (other characters unchanged).
pub open spec fn ascii_lower(c: char) -> char {
    if is_ascii_upper(c) {
        ((c as u32) + 32) as char
    } else {
        c
    }
}

/// `str::chars`, collected into a vector of characters.
#[verifier::external_body]
pub(crate) fn chars_of(s: &str) -> (v: Vec<char>)
    ensures
        v@ == s@,
{
    s.chars().collect()
}

/// A `String` made of the given characters, in order (`FromIterator<char>`).
#[verifier::external_body]
pub(crate) fn string_from_chars(v: &Vec<char>) -> (s: String)
    ensures
        s@ == v@,
{
    v.iter().collect()
}

/// Appends the characters of `s` to `out`.
pub(crate) fn push_str(out: &mut Vec<char>, s: &str)
    ensures
        final(out)@ == old(out)@ + s@,
{
    let mut tail = chars_of(s);
    out.append(&mut tail);
}

/// Appends all of `src` to `out`.
pub(crate) fn push_chars(out: &mut Vec<char>, src: &Vec<char>)
    ensures
        final(out)@ == old(out)@ + src@,
{
    let mut i: usize = 0;
    while i < src.len()
        invariant
            i <= src.len(),
            out@ == old(out)@ + src@.take(i as int),
        decreases src.len() - i,
    {
        out.push(src[i]);
        i = i + 1;
        assert(out@ =~= old(out)@ + src@.take(i as int));
    }
    assert(src@.take(i as int) =~= src@);
}

/// Whether two character vectors hold the same characters.
pub(crate) fn chars_equal(a: &Vec<char>, b: &Vec<char>) -> (r: bool)
    ensures
        r == (a@ == b@),
{
    if a.len() != b.len() {
        return false;
    }
    let mut i: usize = 0;
    while i < a.len()
        invariant
            a.len() == b.len(),
            i <= a.len(),
            forall|j: int| 0 <= j < i ==> a@[j] == b@[j],
        decreases a.len() - i,
    {
        if a[i] != b[i] {
            return false;
        }
        i = i + 1;
    }
    assert(a@ =~= b@);
    true
}

// ---------------------------------------------------------------------------
// Decimal rendering of integers
// ---------------------------------------------------------------------------

pub open spec fn digit_char(d: nat) -> char {
    ((48 + d) as u32) as char
}

/// The decimal digits of `n`, most significant first, without sign or padding.
pub open spec fn decimal(n: nat) -> Seq<char>
    decreases n,
{
    if n < 10 {
        seq![digit_char(n)]
    } else {
        decimal(n / 10).push(digit_char(n % 10))
    }
}

/// Appends the decimal digits of `n` to `out`.
pub(crate) fn push_decimal(out: &mut Vec<char>, n: u64)
    ensures
        final(out)@ == old(out)@ + decimal(n as nat),
    decreases n,
{
    if n >= 10 {
        push_decimal(out, n / 10);
    }
    let d: u8 = (n % 10) as u8;
    let c: char = (48u8 + d) as char;
    out.push(c);
    assert(out@ =~= old(out)@ + decimal(n as nat));
}

/// The decimal rendering of `n` (`n.to_string()`).
pub fn decimal_string(n: u64) -> (s: String)
    ensures
        s@ == decimal(n as nat),
{
    let mut v: Vec<char> = Vec::new();
    push_decimal(&mut v, n);
    assert(v@ =~= decimal(n as nat));
    string_from_chars(&v)
}

// ---------------------------------------------------------------------------
// Whitespace and trimming
// ---------------------------------------------------------------------------

/// Whether `c` has Unicode's `White_Space` property (PropList.txt): U+0009
/// to U+000D, the space, U+0085, U+00A0, U+1680, U+2000 to U+200A, U+2028,
/// U+2029, U+202F, U+205F and U+3000.
pub open spec fn unicode_white_space(c: char) -> bool {
    let n = c as u32;
    ||| 0x09 <= n <= 0x0D
    ||| n == 0x20
    ||| n == 0x85
    ||| n == 0xA0
    ||| n == 0x1680
    ||| 0x2000 <= n <= 0x200A
    ||| n == 0x2028
    ||| n == 0x2029
    ||| n == 0x202F
    ||| n == 0x205F
    ||| n == 0x3000
}

/// `char::is_whitespace`: true when `c` has the `White_Space` property.
#[verifier::external_body]
pub(crate) fn char_is_whitespace(c: char) -> (b: bool)
    ensures
        b == unicode_white_space(c),
{
    c.is_whitespace()
}

/// Leading whitespace removed.
pub open spec fn trim_start_ws(s: Seq<char>) -> Seq<char>
    decreases s.len(),
{
    if s.len() > 0 && unicode_white_space(s[0]) {
        trim_start_ws(s.drop_first())
    } else {
        s
    }
}

/// Trailing whitespace removed.
pub open spec fn trim_end_ws(s: Seq<char>) -> Seq<char>
    decreases s.len(),
{
    if s.len() > 0 && unicode_white_space(s.last()) {
        trim_end_ws(s.drop_last())
    } else {
        s
    }
}

/// `str::trim`: leading and trailing whitespace removed.
pub open spec fn trim_ws(s: Seq<char>) -> Seq<char> {
    trim_end_ws(trim_start_ws(s))
}

/// The characters of `v` with leading and trailing whitespace removed.
pub(crate) fn trim_chars(v: &Vec<char>) -> (r: Vec<char>)
    ensures
        r@ == trim_ws(v@),
{
    let n = v.len();
    let mut i: usize = 0;
    assert(v@.skip(0) =~= v@);
    while i < n && char_is_whitespace(v[i])
        invariant
            n == v.len(),
            i <= n,
            trim_start_ws(v@) == trim_start_ws(v@.skip(i as int)),
        decreases n - i,
    {
        assert(v@.skip(i as int).drop_first() =~= v@.skip(i + 1));
        i = i + 1;
    }
    assert(trim_start_ws(v@.skip(i as int)) == v@.skip(i as int));
    let mut j: usize = n;
    while j > i && char_is_whitespace(v[j - 1])
        invariant
            n == v.len(),
            i <= j <= n,
            trim_ws(v@) == trim_end_ws(v@.subrange(i as int, j as int)),
        decreases j,
    {
        assert(v@.subrange(i as int, j as int).drop_last() =~= v@.subrange(i as int, j - 1));
        j = j - 1;
    }
    assert(v@.skip(i as int) =~= v@.subrange(i as int, n as int));
    let mut r: Vec<char> = Vec::new();
    let mut k: usize = i;
    while k < j
        invariant
            i <= k <= j <= n,
            n == v.len(),
            r@ == v@.subrange(i as int, k as int),
        decreases j - k,
    {
        r.push(v[k]);
        k = k + 1;
        assert(r@ =~= v@.subrange(i as int, k as int));
    }
    r
}

// ---------------------------------------------------------------------------
// Lower case
// ---------------------------------------------------------------------------

/// What `str::to_lowercase` gives for a string (Unicode lower-case mapping).
pub uninterp spec fn unicode_lowercase(s: Seq<char>) -> Seq<char>;

/// ASCII lower-case mapping, character by character.
pub open spec fn ascii_lowercase(s: Seq<char>) -> Seq<char> {
    s.map_values(|c: char| ascii_lower(c))
}

/// `str::to_lowercase`.  Its result is named.  On ASCII text it is the ASCII
/// lower-case mapping, character by character; on any text it holds no ASCII
/// upper-case letter, and a `/` or `.` only where the text has one (those
/// have no lower-case mapping, and no character's mapping yields them).
#[verifier::external_body]
pub(crate) fn to_lowercase(s: &str) -> (r: String)
    ensures
        r@ == unicode_lowercase(s@),
        is_ascii_seq(s@) ==> r@ == ascii_lowercase(s@),
        forall|i: int| 0 <= i < r@.len() ==> !is_ascii_upper(#[trigger] r@[i]),
        r@.contains('/') ==> s@.contains('/'),
        r@.contains('.') ==> s@.contains('.'),
{
    s.to_lowercase()
}

/// The lower-case form of a character vector.
pub(crate) fn lowercase_chars(v: &Vec<char>) -> (r: Vec<char>)
    ensures
        r@ == unicode_lowercase(v@),
        is_ascii_seq(v@) ==> r@ == ascii_lowercase(v@),
        forall|i: int| 0 <= i < r@.len() ==> !is_ascii_upper(#[trigger] r@[i]),
        r@.contains('/') ==> v@.contains('/'),
        r@.contains('.') ==> v@.contains('.'),
{
    let s = string_from_chars(v);
    let lower = to_lowercase(s.as_str());
    chars_of(lower.as_str())
}

// ---------------------------------------------------------------------------
// Slugs
// ---------------------------------------------------------------------------

/// The pattern of the characters that a slug leaves out: anything that is
/// not a word character, whitespace or a hyphen.
pub open spec fn slug_pattern() -> Seq<char> {
    "[^\\w\\s-]"@
}

/// What `Regex::new(pattern)` followed by `replace_all(text, "")` gives:
/// `None` when the pattern does not compile, else the text with every match
/// deleted.
pub uninterp spec fn regex_delete_all(pattern: Seq<char>, text: Seq<char>) -> Option<Seq<char>>;

/// `regex::Regex::new` and `Regex::replace_all` with an empty replacement.
/// The result is named.  The slug pattern compiles, and what it leaves holds
/// no `/` and no `.` (neither is a word character, whitespace or `-`).
#[verifier::external_body]
pub(crate) fn regex_delete(pattern: &str, text: &str) -> (r: Option<String>)
    ensures
        (r is Some) == (regex_delete_all(pattern@, text@) is Some),
        r matches Some(s) ==> regex_delete_all(pattern@, text@) == Some(s@),
        pattern@ == slug_pattern() ==> r is Some,
        r matches Some(s) ==> (pattern@ == slug_pattern() ==> forall|i: int|
            0 <= i < s@.len() ==> #[trigger] s@[i] != '/' && s@[i] != '.'),
{
    match regex::Regex::new(pattern) {
        Ok(re) => Some(re.replace_all(text, "").into_owned()),
        Err(_) => None,
    }
}

/// Every space replaced by a hyphen.
pub open spec fn spaces_to_hyphens(s: Seq<char>) -> Seq<char> {
    s.map_values(|c: char| if c == ' ' { '-' } else { c })
}

/// `str::replace("--", "-")`: pairs of hyphens, found left to right without
/// overlap, each replaced by one hyphen.
pub open spec fn collapse_hyphen_pairs(s: Seq<char>) -> Seq<char>
    decreases s.len(),
{
    if s.len() == 0 {
        s
    } else if s.len() >= 2 && s[0] == '-' && s[1] == '-' {
        seq!['-'] + collapse_hyphen_pairs(s.skip(2))
    } else {
        seq![s[0]] + collapse_hyphen_pairs(s.skip(1))
    }
}

/// The slug of a text: characters other than word characters, whitespace and
/// hyphens removed, trimmed, lower-cased, spaces turned into hyphens, and
/// pairs of hyphens collapsed.
pub open spec fn slug_of(text: Seq<char>) -> Seq<char> {
    collapse_hyphen_pairs(
        spaces_to_hyphens(unicode_lowercase(trim_ws(regex_delete_all(slug_pattern(), text).unwrap()))),
    )
}

/// Every character of `s` satisfies `p`.
pub open spec fn all_chars(s: Seq<char>, p: spec_fn(char) -> bool) -> bool {
    forall|i: int| 0 <= i < s.len() ==> #[trigger] p(s[i])
}

/// Collapsing pairs of hyphens keeps a property that every character and
/// the hyphen have.
pub proof fn lemma_collapse_keeps(s: Seq<char>, p: spec_fn(char) -> bool)
    requires
        p('-'),
        all_chars(s, p),
    ensures
        all_chars(collapse_hyphen_pairs(s), p),
    decreases s.len(),
{
    if s.len() == 0 {
    } else {
        let k: int = if s.len() >= 2 && s[0] == '-' && s[1] == '-' {
            2
        } else {
            1
        };
        let head: char = if k == 2 {
            '-'
        } else {
            s[0]
        };
        assert(all_chars(s.skip(k), p)) by {
            assert forall|i: int| 0 <= i < s.skip(k).len() implies #[trigger] p(s.skip(k)[i]) by {
                assert(s.skip(k)[i] == s[i + k]);
            }
        }
        lemma_collapse_keeps(s.skip(k), p);
        let r = collapse_hyphen_pairs(s.skip(k));
        assert(p(head)) by {
            if k == 1 {
                assert(p(s[0]));
            }
        }
        assert(collapse_hyphen_pairs(s) == seq![head] + r);
        assert forall|i: int| 0 <= i < (seq![head] + r).len() implies #[trigger] p(
            (seq![head] + r)[i],
        ) by {
            if i > 0 {
                assert((seq![head] + r)[i] == r[i - 1]);
            }
        }
    }
}

/// Trimming keeps a property of every character.
pub proof fn lemma_trim_keeps(s: Seq<char>, p: spec_fn(char) -> bool)
    requires
        all_chars(s, p),
    ensures
        all_chars(trim_ws(s), p),
{
    lemma_trim_start_keeps(s, p);
    lemma_trim_end_keeps(trim_start_ws(s), p);
}

proof fn lemma_trim_start_keeps(s: Seq<char>, p: spec_fn(char) -> bool)
    requires
        all_chars(s, p),
    ensures
        all_chars(trim_start_ws(s), p),
    decreases s.len(),
{
    if s.len() > 0 && unicode_white_space(s[0]) {
        assert(all_chars(s.drop_first(), p)) by {
            assert forall|i: int| 0 <= i < s.drop_first().len() implies #[trigger] p(
                s.drop_first()[i],
            ) by {
                assert(s.drop_first()[i] == s[i + 1]);
            }
        }
        lemma_trim_start_keeps(s.drop_first(), p);
    }
}

proof fn lemma_trim_end_keeps(s: Seq<char>, p: spec_fn(char) -> bool)
    requires
        all_chars(s, p),
    ensures
        all_chars(trim_end_ws(s), p),
    decreases s.len(),
{
    if s.len() > 0 && unicode_white_space(s.last()) {
        assert(all_chars(s.drop_last(), p)) by {
            assert forall|i: int| 0 <= i < s.drop_last().len() implies #[trigger] p(
                s.drop_last()[i],
            ) by {
                assert(s.drop_last()[i] == s[i]);
            }
        }
        lemma_trim_end_keeps(s.drop_last(), p);
    }
}

/// A slug never holds a space: every space becomes a hyphen, and collapsing
/// pairs of hyphens brings none back.
pub proof fn slug_has_no_spaces(text: Seq<char>)
    ensures
        !slug_of(text).contains(' '),
{
    let lowered = unicode_lowercase(trim_ws(regex_delete_all(slug_pattern(), text).unwrap()));
    let h = spaces_to_hyphens(lowered);
    let p = |c: char| c != ' ';
    assert(all_chars(h, p));
    lemma_collapse_keeps(h, p);
    let r = collapse_hyphen_pairs(h);
    if r.contains(' ') {
        let i = choose|i: int| 0 <= i < r.len() && r[i] == ' ';
        assert(p(r[i]));
    }
}

/// A character that a slug may hold: anything but a separator, a dot, a
/// space or an ASCII upper-case letter.
pub open spec fn slug_char(c: char) -> bool {
    c != '/' && c != '.' && c != ' ' && !is_ascii_upper(c)
}

fn hyphenate_spaces(v: &Vec<char>) -> (r: Vec<char>)
    ensures
        r@ == spaces_to_hyphens(v@),
{
    let mut r: Vec<char> = Vec::new();
    let mut i: usize = 0;
    while i < v.len()
        invariant
            i <= v.len(),
            r@ == spaces_to_hyphens(v@.take(i as int)),
        decreases v.len() - i,
    {
        let c = v[i];
        if c == ' ' {
            r.push('-');
        } else {
            r.push(c);
        }
        i = i + 1;
        assert(r@ =~= spaces_to_hyphens(v@.take(i as int)));
    }
    assert(v@.take(i as int) =~= v@);
    r
}

fn collapse_pairs(v: &Vec<char>) -> (r: Vec<char>)
    ensures
        r@ == collapse_hyphen_pairs(v@),
{
    let mut r: Vec<char> = Vec::new();
    let mut i: usize = 0;
    assert(v@.skip(0) =~= v@);
    assert(r@ + collapse_hyphen_pairs(v@) =~= collapse_hyphen_pairs(v@));
    while i < v.len()
        invariant
            i <= v.len(),
            collapse_hyphen_pairs(v@) == r@ + collapse_hyphen_pairs(v@.skip(i as int)),
        decreases v.len() - i,
    {
        let ghost rest = v@.skip(i as int);
        if i + 1 < v.len() && v[i] == '-' && v[i + 1] == '-' {
            assert(rest.skip(2) =~= v@.skip(i + 2));
            r.push('-');
            i = i + 2;
            assert(collapse_hyphen_pairs(v@) == r@ + collapse_hyphen_pairs(v@.skip(i as int)));
        } else {
            assert(rest.skip(1) =~= v@.skip(i + 1));
            assert(rest[0] == v@[i as int]);
            r.push(v[i]);
            i = i + 1;
            assert(collapse_hyphen_pairs(v@) == r@ + collapse_hyphen_pairs(v@.skip(i as int)));
        }
    }
    assert(v@.skip(i as int) =~= Seq::<char>::empty());
    assert(r@ + Seq::<char>::empty() =~= r@);
    r
}

/// The slug of `text` (see `slug_of`): for example "Hello World!" gives
/// "hello-world".
pub fn slugify(text: &str) -> (res: String)
    ensures
        res@ == slug_of(text@),
        !res@.contains(' '),
        all_chars(res@, |c: char| slug_char(c)),
{
    let cleaned = match regex_delete("[^\\w\\s-]", text) {
        Some(c) => c,
        None => {
            assert(false);
            String::new()
        },
    };
    let chars = chars_of(cleaned.as_str());
    let trimmed = trim_chars(&chars);
    let lowered = lowercase_chars(&trimmed);
    let hyphened = hyphenate_spaces(&lowered);
    let collapsed = collapse_pairs(&hyphened);
    proof {
        slug_has_no_spaces(text@);
        let keep = |c: char| c != '/' && c != '.';
        assert(all_chars(chars@, keep));
        lemma_trim_keeps(chars@, keep);
        assert(!trimmed@.contains('/') && !trimmed@.contains('.')) by {
            if trimmed@.contains('/') || trimmed@.contains('.') {
                let i = choose|i: int| 0 <= i < trimmed@.len() && (trimmed@[i] == '/' || trimmed@[i] == '.');
                assert(keep(trimmed@[i]));
            }
        }
        let sc = |c: char| slug_char(c);
        assert(all_chars(hyphened@, sc)) by {
            assert forall|i: int| 0 <= i < hyphened@.len() implies #[trigger] sc(hyphened@[i]) by {
                assert(!is_ascii_upper(lowered@[i]));
                if lowered@[i] == '/' || lowered@[i] == '.' {
                    assert(lowered@.contains(lowered@[i]));
                }
            }
        }
        lemma_collapse_keeps(hyphened@, sc);
    }
    string_from_chars(&collapsed)
}

// ---------------------------------------------------------------------------
// Random text
// ---------------------------------------------------------------------------

/// `rand::distr::Alphanumeric` sampled from the thread-local generator
/// (`rand::rng()`): a random ASCII letter or digit.
#[verifier::external_body]
pub(crate) fn random_alphanumeric() -> (c: char)
    ensures
        is_ascii_alnum(c),
{
    rand::rng().sample(rand::distr::Alphanumeric) as char
}

/// `len` random ASCII letters and digits.
pub fn generate_password(len: usize) -> (res: String)
    ensures
        res@.len() == len,
        forall|i: int| 0 <= i < len ==> is_ascii_alnum(#[trigger] res@[i]),
{
    let mut v: Vec<char> = Vec::new();
    let mut i: usize = 0;
    while i < len
        invariant
            i <= len,
            v@.len() == i,
            forall|j: int| 0 <= j < i ==> is_ascii_alnum(#[trigger] v@[j]),
        decreases len - i,
    {
        let c = random_alphanumeric();
        v.push(c);
        i = i + 1;
    }
    string_from_chars(&v)
}

/// `s` is the slug of `title`, a hyphen, and six lower-case ASCII letters or
/// digits.
pub open spec fn is_unique_slug_of(s: Seq<char>, title: Seq<char>) -> bool {
    &&& s.len() == slug_of(title).len() + 7
    &&& s.take(slug_of(title).len() as int) == slug_of(title)
    &&& s[slug_of(title).len() as int] == '-'
    &&& forall|i: int|
        slug_of(title).len() < i < s.len() ==> (is_ascii_digit(#[trigger] s[i]) || is_ascii_lower(
            s[i],
        ))
}

/// The slug of `title`, a hyphen, and six random lower-case ASCII letters or
/// digits.
pub fn generate_unique_slug(title: &str) -> (res: String)
    ensures
        is_unique_slug_of(res@, title@),
{
    let base = slugify(title);
    let suffix = generate_password(6);
    proof {
        assert(is_ascii_seq(suffix@)) by {
            assert forall|i: int| 0 <= i < suffix@.len() implies is_ascii_char(#[trigger] suffix@[i]) by {
                assert(is_ascii_alnum(suffix@[i]));
            }
        }
    }
    let lower = to_lowercase(suffix.as_str());
    let mut out = chars_of(base.as_str());
    out.push('-');
    let lower_chars = chars_of(lower.as_str());
    push_chars(&mut out, &lower_chars);
    proof {
        let s = slug_of(title@);
        assert(out@.take(s.len() as int) =~= s);
        assert forall|i: int| s.len() < i < out@.len() implies (is_ascii_digit(#[trigger] out@[i])
            || is_ascii_lower(out@[i])) by {
            let k = i - s.len() - 1;
            assert(out@[i] == lower@[k]);
            assert(lower@[k] == ascii_lower(suffix@[k]));
            assert(is_ascii_alnum(suffix@[k]));
        }
    }
    string_from_chars(&out)
}

} // verus!
