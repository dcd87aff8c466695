//! String helpers used to build audio identifiers and search tokens.
use vstd::prelude::*;

verus! {

/// Whether `c` is an ASCII letter or digit, as `char::is_ascii_alphanumeric` defines it.
pub open spec fn spec_is_alnum(c: char) -> bool {
    ('0' <= c && c <= '9') || ('a' <= c && c <= 'z') || ('A' <= c && c <= 'Z')
}

/// Executable form of [`spec_is_alnum`].
pub fn is_ascii_alnum(c: char) -> (r: bool)
    ensures
        r == spec_is_alnum(c),
{
    ('0' <= c && c <= '9') || ('a' <= c && c <= 'z') || ('A' <= c && c <= 'Z')
}

/// The characters of a string, in order.
pub fn chars_of(s: &str) -> (r: Vec<char>)
    ensures
        r@ == s@,
{
    let mut out: Vec<char> = Vec::new();
    for c in it: s.chars()
        invariant
            out@ == it.history(),
    {
        out.push(c);
    }
    out
}

/// Appends `c` to `s`, through `String::push`.
#[verifier::external_body]
pub(crate) fn push_char(s: &mut String, c: char)
    ensures
        final(s)@ == old(s)@.push(c),
{
    s.push(c);
}

/// The string whose characters are `cs`, in order.
pub fn string_from_chars(cs: &Vec<char>) -> (r: String)
    ensures
        r@ == cs@,
{
    let mut out = String::new();
    let mut i: usize = 0;
    while i < cs.len()
        invariant
            i <= cs.len(),
            out@ == cs@.take(i as int),
        decreases cs.len() - i,
    {
        push_char(&mut out, cs[i]);
        assert(cs@.take(i + 1) =~= cs@.take(i as int).push(cs@[i as int]));
        i += 1;
    }
    assert(cs@.take(cs.len() as int) =~= cs@);
    out
}

/// The character that `sanitize_string` puts in place of `c`.
pub open spec fn spec_sanitize_char(c: char) -> char {
    if spec_is_alnum(c) { c } else { '_' }
}

/// `s` with every character that is not an ASCII letter or digit replaced by `_`.
pub open spec fn spec_sanitize(s: Seq<char>) -> Seq<char> {
    s.map_values(|c: char| spec_sanitize_char(c))
}

/// Replaces every character of `input` that is not an ASCII letter or digit by `_`;
/// the result has as many characters as `input`.
pub fn sanitize_string(input: &str) -> (r: String)
    ensures
        r@ == spec_sanitize(input@),
{
    let mut out = String::new();
    for c in it: input.chars()
        invariant
            out@ == spec_sanitize(it.history()),
    {
        let d = if is_ascii_alnum(c) { c } else { '_' };
        proof {
            assert(spec_sanitize(it.history().push(c)) =~= spec_sanitize(it.history()).push(d));
        }
        push_char(&mut out, d);
    }
    out
}

/// `seq![cur]` when `cur` is not empty, else no token.
pub open spec fn spec_flush(cur: Seq<char>) -> Seq<Seq<char>> {
    if cur.len() > 0 { seq![cur] } else { Seq::empty() }
}

/// The tokens of `s` when the token being read so far is `cur`: each maximal run of
/// ASCII letters and digits is one token, every other character separates tokens.
pub open spec fn spec_tokens_from(s: Seq<char>, cur: Seq<char>) -> Seq<Seq<char>>
    decreases s.len(),
{
    if s.len() == 0 {
        spec_flush(cur)
    } else if spec_is_alnum(s[0]) {
        spec_tokens_from(s.drop_first(), cur.push(s[0]))
    } else {
        spec_flush(cur) + spec_tokens_from(s.drop_first(), Seq::empty())
    }
}

/// The maximal runs of ASCII letters and digits in `s`, from left to right.
pub open spec fn spec_tokenize(s: Seq<char>) -> Seq<Seq<char>> {
    spec_tokens_from(s, Seq::empty())
}

/// The views of a sequence of strings.
pub open spec fn string_views(v: Seq<String>) -> Seq<Seq<char>> {
    v.map_values(|t: String| t@)
}

/// Splits `input` into its maximal runs of ASCII letters and digits; every other
/// character (space, punctuation, any non-ASCII character) only separates tokens.
pub fn tokenize_string(input: &str) -> (r: Vec<String>)
    ensures
        string_views(r@) == spec_tokenize(input@),
{
    let cs = chars_of(input);
    let mut output: Vec<String> = Vec::new();
    let mut push_string = String::new();
    let mut cur_len: usize = 0;
    let mut i: usize = 0;
    assert(cs@.skip(0) =~= cs@);
    while i < cs.len()
        invariant
            i <= cs.len(),
            cs@ == input@,
            cur_len == push_string@.len(),
            cur_len <= i,
            string_views(output@) + spec_tokens_from(cs@.skip(i as int), push_string@)
                == spec_tokenize(cs@),
        decreases cs.len() - i,
    {
        let c = cs[i];
        let ghost rest = cs@.skip(i as int);
        assert(rest[0] == c);
        assert(rest.drop_first() =~= cs@.skip(i + 1));
        if is_ascii_alnum(c) {
            push_char(&mut push_string, c);
            cur_len += 1;
        } else {
            let ghost before = output@;
            if cur_len > 0 {
                output.push(push_string);
                assert(string_views(output@) =~= string_views(before) + seq![push_string@]);
            } else {
                assert(string_views(output@) =~= string_views(before));
            }
            push_string = String::new();
            cur_len = 0;
        }
        i += 1;
    }
    assert(cs@.skip(i as int) =~= Seq::<char>::empty());
    if cur_len > 0 {
        let ghost before = output@;
        output.push(push_string);
        assert(string_views(output@) =~= string_views(before) + seq![push_string@]);
    } else {
        assert(spec_flush(push_string@) =~= Seq::<Seq<char>>::empty());
        assert(string_views(output@) + Seq::<Seq<char>>::empty() =~= string_views(output@));
    }
    output
}

/// Every character of `s` is an ASCII letter or digit.
pub open spec fn all_alnum(s: Seq<char>) -> bool {
    forall|i: int| 0 <= i < s.len() ==> spec_is_alnum(#[trigger] s[i])
}

/// Every token in `ts` is non-empty and made of ASCII letters and digits.
pub open spec fn all_alnum_tokens(ts: Seq<Seq<char>>) -> bool {
    forall|k: int| 0 <= k < ts.len() ==> (#[trigger] ts[k]).len() > 0 && all_alnum(ts[k])
}

proof fn lemma_tokens_from_alnum(s: Seq<char>, cur: Seq<char>)
    requires
        all_alnum(cur),
    ensures
        all_alnum_tokens(spec_tokens_from(s, cur)),
    decreases s.len(),
{
    if s.len() == 0 {
        assert(spec_tokens_from(s, cur) == spec_flush(cur));
        if cur.len() > 0 {
            assert(spec_flush(cur)[0] == cur);
        }
    } else if spec_is_alnum(s[0]) {
        let next = cur.push(s[0]);
        assert(all_alnum(next)) by {
            assert forall|i: int| 0 <= i < next.len() implies spec_is_alnum(#[trigger] next[i]) by {
                if i < cur.len() {
                    assert(next[i] == cur[i]);
                }
            }
        }
        lemma_tokens_from_alnum(s.drop_first(), next);
    } else {
        lemma_tokens_from_alnum(s.drop_first(), Seq::empty());
        let head = spec_flush(cur);
        let tail = spec_tokens_from(s.drop_first(), Seq::empty());
        assert(spec_tokens_from(s, cur) == head + tail);
        assert forall|k: int| 0 <= k < (head + tail).len() implies
            (#[trigger] (head + tail)[k]).len() > 0 && all_alnum((head + tail)[k]) by {
            if k >= head.len() {
                assert((head + tail)[k] == tail[k - head.len()]);
            } else {
                assert((head + tail)[k] == cur);
            }
        }
    }
}

/// Every token that `tokenize_string` yields is non-empty and made of ASCII
/// letters and digits only.
pub proof fn law_tokens_are_alnum_runs(s: Seq<char>)
    ensures
        all_alnum_tokens(spec_tokenize(s)),
{
    lemma_tokens_from_alnum(s, Seq::empty());
}

/// The tokens `ts` joined with single spaces, as `ts.join(" ")` gives them.
pub open spec fn spec_join_spaces(ts: Seq<Seq<char>>) -> Seq<char>
    decreases ts.len(),
{
    if ts.len() == 0 {
        Seq::empty()
    } else if ts.len() == 1 {
        ts[0]
    } else {
        ts[0] + seq![' '] + spec_join_spaces(ts.drop_first())
    }
}

proof fn lemma_tokens_from_alnum_prefix(t: Seq<char>, s: Seq<char>, cur: Seq<char>)
    requires
        all_alnum(t),
    ensures
        spec_tokens_from(t + s, cur) == spec_tokens_from(s, cur + t),
    decreases t.len(),
{
    if t.len() == 0 {
        assert(t + s =~= s);
        assert(cur + t =~= cur);
    } else {
        assert((t + s)[0] == t[0]);
        assert((t + s).drop_first() =~= t.drop_first() + s);
        assert(spec_is_alnum(t[0]));
        assert(all_alnum(t.drop_first())) by {
            assert forall|i: int| 0 <= i < t.drop_first().len() implies spec_is_alnum(#[trigger] t.drop_first()[i]) by {
                assert(t.drop_first()[i] == t[i + 1]);
            }
        }
        lemma_tokens_from_alnum_prefix(t.drop_first(), s, cur.push(t[0]));
        assert(cur.push(t[0]) + t.drop_first() =~= cur + t);
    }
}

proof fn lemma_tokens_of_join(ts: Seq<Seq<char>>)
    requires
        all_alnum_tokens(ts),
    ensures
        spec_tokens_from(spec_join_spaces(ts), Seq::empty()) == ts,
    decreases ts.len(),
{
    let e = Seq::<char>::empty();
    if ts.len() == 0 {
        assert(spec_tokens_from(e, e) =~= ts);
    } else {
        let t = ts[0];
        assert(t.len() > 0 && all_alnum(t));
        assert(e + t =~= t);
        if ts.len() == 1 {
            lemma_tokens_from_alnum_prefix(t, e, e);
            assert(t + e =~= t);
            assert(spec_tokens_from(e, t) == spec_flush(t));
            assert(spec_flush(t) =~= ts);
        } else {
            let rest = ts.drop_first();
            assert(all_alnum_tokens(rest)) by {
                assert forall|k: int| 0 <= k < rest.len() implies (#[trigger] rest[k]).len() > 0 && all_alnum(rest[k]) by {
                    assert(rest[k] == ts[k + 1]);
                }
            }
            lemma_tokens_of_join(rest);
            let j = spec_join_spaces(rest);
            let tail = seq![' '] + j;
            assert(spec_join_spaces(ts) =~= t + tail);
            lemma_tokens_from_alnum_prefix(t, tail, e);
            assert(tail[0] == ' ');
            assert(!spec_is_alnum(' '));
            assert(tail.drop_first() =~= j);
            assert(spec_tokens_from(tail, t) == spec_flush(t) + spec_tokens_from(j, e));
            assert(spec_flush(t) + rest =~= ts);
        }
    }
}

/// Joining the tokens of a string with single spaces and tokenizing again gives the
/// same tokens.
pub proof fn law_tokenize_joined_tokens(s: Seq<char>)
    ensures
        spec_tokenize(spec_join_spaces(spec_tokenize(s))) == spec_tokenize(s),
{
    law_tokens_are_alnum_runs(s);
    lemma_tokens_of_join(spec_tokenize(s));
}

proof fn lemma_tokens_from_sanitize(s: Seq<char>, cur: Seq<char>)
    ensures
        spec_tokens_from(spec_sanitize(s), cur) == spec_tokens_from(s, cur),
    decreases s.len(),
{
    let t = spec_sanitize(s);
    if s.len() > 0 {
        assert(t.drop_first() =~= spec_sanitize(s.drop_first()));
        lemma_tokens_from_sanitize(s.drop_first(), cur.push(s[0]));
        lemma_tokens_from_sanitize(s.drop_first(), Seq::empty());
    }
}

/// Sanitizing a string does not change its tokens: `sanitize_string` only turns
/// separators into `_`, which is a separator too.
pub proof fn law_tokenize_after_sanitize(s: Seq<char>)
    ensures
        spec_tokenize(spec_sanitize(s)) == spec_tokenize(s),
{
    lemma_tokens_from_sanitize(s, Seq::empty());
}

/// Sanitizing twice gives what sanitizing once gives, and a sanitized string has
/// only ASCII letters, digits and `_`, as many characters as the input.
pub proof fn law_sanitize_idempotent(s: Seq<char>)
    ensures
        spec_sanitize(spec_sanitize(s)) == spec_sanitize(s),
        spec_sanitize(s).len() == s.len(),
        forall|i: int|
            0 <= i < s.len() ==> spec_is_alnum(#[trigger] spec_sanitize(s)[i])
                || spec_sanitize(s)[i] == '_',
{
    assert(spec_sanitize(spec_sanitize(s)) =~= spec_sanitize(s));
}

/// Whether `c` has the Unicode `White_Space` property, as `char::is_whitespace` defines it.
pub open spec fn spec_is_whitespace(c: char) -> bool {
    ('\t' <= c && c <= '\r') || c == ' ' || c == '\u{85}' || c == '\u{A0}' || c == '\u{1680}'
        || ('\u{2000}' <= c && c <= '\u{200A}') || c == '\u{2028}' || c == '\u{2029}'
        || c == '\u{202F}' || c == '\u{205F}' || c == '\u{3000}'
}

/// Executable form of [`spec_is_whitespace`].
pub fn is_whitespace(c: char) -> (r: bool)
    ensures
        r == spec_is_whitespace(c),
{
    ('\t' <= c && c <= '\r') || c == ' ' || c == '\u{85}' || c == '\u{A0}' || c == '\u{1680}'
        || ('\u{2000}' <= c && c <= '\u{200A}') || c == '\u{2028}' || c == '\u{2029}'
        || c == '\u{202F}' || c == '\u{205F}' || c == '\u{3000}'
}

/// `s` without its leading whitespace.
pub open spec fn spec_trim_start(s: Seq<char>) -> Seq<char>
    decreases s.len(),
{
    if s.len() > 0 && spec_is_whitespace(s[0]) {
        spec_trim_start(s.drop_first())
    } else {
        s
    }
}

/// `s` without its trailing whitespace.
pub open spec fn spec_trim_end(s: Seq<char>) -> Seq<char>
    decreases s.len(),
{
    if s.len() > 0 && spec_is_whitespace(s.last()) {
        spec_trim_end(s.drop_last())
    } else {
        s
    }
}

/// `s` without its leading and trailing whitespace, as `str::trim` gives it.
pub open spec fn spec_trim(s: Seq<char>) -> Seq<char> {
    spec_trim_end(spec_trim_start(s))
}

/// `input` without its leading and trailing whitespace.
pub fn trim(input: &str) -> (r: String)
    ensures
        r@ == spec_trim(input@),
{
    let cs = chars_of(input);
    let n = cs.len();
    let mut i: usize = 0;
    assert(cs@.skip(0) =~= cs@);
    while i < n && is_whitespace(cs[i])
        invariant
            n == cs.len(),
            i <= n,
            spec_trim_start(cs@) == spec_trim_start(cs@.skip(i as int)),
        decreases n - i,
    {
        assert(cs@.skip(i as int).drop_first() =~= cs@.skip(i + 1));
        i += 1;
    }
    assert(spec_trim_start(cs@.skip(i as int)) == cs@.skip(i as int));
    let mut j: usize = n;
    assert(cs@.skip(i as int) =~= cs@.subrange(i as int, n as int));
    while j > i && is_whitespace(cs[j - 1])
        invariant
            n == cs.len(),
            i <= j <= n,
            spec_trim(cs@) == spec_trim_end(cs@.subrange(i as int, j as int)),
        decreases j - i,
    {
        assert(cs@.subrange(i as int, j as int).drop_last() =~= cs@.subrange(i as int, j - 1));
        j -= 1;
    }
    assert(spec_trim_end(cs@.subrange(i as int, j as int)) == cs@.subrange(i as int, j as int));
    let mut out: Vec<char> = Vec::new();
    let mut k: usize = i;
    while k < j
        invariant
            i <= k <= j <= n,
            n == cs.len(),
            out@ == cs@.subrange(i as int, k as int),
        decreases j - k,
    {
        out.push(cs[k]);
        assert(cs@.subrange(i as int, k + 1) =~= cs@.subrange(i as int, k as int).push(cs@[k as int]));
        k += 1;
    }
    string_from_chars(&out)
}

/// Whether `s` ends with `suffix`.
pub open spec fn spec_ends_with(s: Seq<char>, suffix: Seq<char>) -> bool {
    suffix.len() <= s.len() && s.skip(s.len() - suffix.len()) == suffix
}

/// `s` without `suffix` at its end, as `str::strip_suffix` gives it; `None` when `s`
/// does not end with `suffix`.
pub fn strip_suffix(s: &str, suffix: &str) -> (r: Option<String>)
    ensures
        match r {
            Some(t) => spec_ends_with(s@, suffix@) && t@ == s@.take(s@.len() - suffix@.len()),
            None => !spec_ends_with(s@, suffix@),
        },
{
    let nc = chars_of(s);
    let sc = chars_of(suffix);
    if sc.len() > nc.len() {
        return None;
    }
    let start = nc.len() - sc.len();
    let mut i: usize = 0;
    while i < sc.len()
        invariant
            start == nc.len() - sc.len(),
            sc.len() <= nc.len(),
            nc@ == s@,
            sc@ == suffix@,
            i <= sc.len(),
            forall|j: int| 0 <= j < i ==> nc@[start + j] == sc@[j],
        decreases sc.len() - i,
    {
        if nc[start + i] != sc[i] {
            assert(nc@.skip(start as int)[i as int] != sc@[i as int]);
            return None;
        }
        i += 1;
    }
    assert(nc@.skip(start as int) =~= sc@);
    let mut stem: Vec<char> = Vec::new();
    let mut k: usize = 0;
    while k < start
        invariant
            start <= nc.len(),
            k <= start,
            stem@ == nc@.take(k as int),
        decreases start - k,
    {
        stem.push(nc[k]);
        assert(nc@.take(k + 1) =~= nc@.take(k as int).push(nc@[k as int]));
        k += 1;
    }
    Some(string_from_chars(&stem))
}

} // verus!
