use vstd::prelude::*;
use vstd::string::StrSliceExecFns;
use vstd::string::StringSliceAdditionalSpecFns;

verus! {

broadcast use vstd::string::group_string_axioms;

/// Appends one character to a string.
///
/// Trusted: calls `String::push`, whose documentation says that it appends the character
/// to the end of the string.
#[verifier::external_body]
pub(crate) fn push_char(s: &mut String, c: char)
    ensures
        final(s)@ == old(s)@.push(c),
{
    s.push(c);
}

/// The characters of a text, in order.
pub fn chars_of(s: &str) -> (v: Vec<char>)
    ensures
        v@ == s@,
{
    let mut v: Vec<char> = Vec::new();
    for c in it: s.chars()
        invariant
            v@ == it.seq().take(it.index() as int),
            it.seq() == s@,
    {
        v.push(c);
    }
    v
}

/// The character that the escape sequence `\c` stands for, where there is one.
pub open spec fn escaped_char(c: char) -> Option<char> {
    if c == 'n' {
        Some('\n')
    } else if c == 'r' {
        Some('\r')
    } else if c == 't' {
        Some('\t')
    } else if c == '"' {
        Some('"')
    } else if c == '\\' {
        Some('\\')
    } else {
        None
    }
}

/// The text that `s` reads as once its escape sequences are interpreted: `\n`, `\r`, `\t`,
/// `\"` and `\\` become the character they name, an unknown sequence `\c` stays as it is,
/// and a lone backslash at the very end stays a backslash.
pub open spec fn spec_unescape(s: Seq<char>) -> Seq<char>
    decreases s.len(),
{
    if s.len() == 0 {
        seq![]
    } else if s[0] != '\\' {
        seq![s[0]] + spec_unescape(s.drop_first())
    } else if s.len() == 1 {
        seq!['\\']
    } else {
        let head = match escaped_char(s[1]) {
            Some(e) => seq![e],
            None => seq!['\\', s[1]],
        };
        head + spec_unescape(s.subrange(2, s.len() as int))
    }
}

/// Interprets the escape sequences of a string literal's text.
pub fn interpret_special_chars(input: &str) -> (result: String)
    ensures
        result@ == spec_unescape(input@),
{
    let chars = chars_of(input);
    let mut result = String::new();
    let mut i: usize = 0;
    let n = chars.len();

    assert(chars@.subrange(0, n as int) == chars@);
    while i < n
        invariant
            n == chars@.len(),
            i <= n,
            chars@ == input@,
            spec_unescape(input@) == result@ + spec_unescape(chars@.subrange(i as int, n as int)),
        decreases n - i,
    {
        let ghost rest = chars@.subrange(i as int, n as int);
        let c = chars[i];
        if c != '\\' {
            push_char(&mut result, c);
            assert(rest.drop_first() == chars@.subrange(i + 1, n as int));
            i = i + 1;
        } else if i + 1 == n {
            push_char(&mut result, '\\');
            i = i + 1;
            assert(chars@.subrange(i as int, n as int) == Seq::<char>::empty());
        } else {
            let next = chars[i + 1];
            assert(rest.subrange(2, rest.len() as int) == chars@.subrange(i + 2, n as int));
            if next == 'n' {
                push_char(&mut result, '\n');
            } else if next == 'r' {
                push_char(&mut result, '\r');
            } else if next == 't' {
                push_char(&mut result, '\t');
            } else if next == '"' {
                push_char(&mut result, '"');
            } else if next == '\\' {
                push_char(&mut result, '\\');
            } else {
                push_char(&mut result, '\\');
                push_char(&mut result, next);
            }
            i = i + 2;
        }
    }
    result
}

/// `s` without the double quotes it starts with.
pub open spec fn trim_start_quotes(s: Seq<char>) -> Seq<char>
    decreases s.len(),
{
    if s.len() > 0 && s[0] == '"' {
        trim_start_quotes(s.drop_first())
    } else {
        s
    }
}

/// `s` without the double quotes it ends with.
pub open spec fn trim_end_quotes(s: Seq<char>) -> Seq<char>
    decreases s.len(),
{
    if s.len() > 0 && s.last() == '"' {
        trim_end_quotes(s.drop_last())
    } else {
        s
    }
}

/// `s` without its leading and then its trailing double quotes.
pub open spec fn spec_strip_quotes(s: Seq<char>) -> Seq<char> {
    trim_end_quotes(trim_start_quotes(s))
}

/// `s` with every `\r\n` replaced by `\n`, matches taken from left to right.
pub open spec fn spec_normalize_newlines(s: Seq<char>) -> Seq<char>
    decreases s.len(),
{
    if s.len() == 0 {
        seq![]
    } else if s.len() >= 2 && s[0] == '\r' && s[1] == '\n' {
        seq!['\n'] + spec_normalize_newlines(s.subrange(2, s.len() as int))
    } else {
        seq![s[0]] + spec_normalize_newlines(s.drop_first())
    }
}

/// Replaces every `\r\n` of a text read from a file by `\n`.
pub fn normalize_newlines(text: &str) -> (result: String)
    ensures
        result@ == spec_normalize_newlines(text@),
{
    let chars = chars_of(text);
    let n = chars.len();
    let mut result = String::new();
    let mut i: usize = 0;
    assert(chars@.subrange(0, n as int) == chars@);
    while i < n
        invariant
            n == chars@.len(),
            i <= n,
            chars@ == text@,
            spec_normalize_newlines(text@) == result@ + spec_normalize_newlines(
                chars@.subrange(i as int, n as int),
            ),
        decreases n - i,
    {
        let ghost rest = chars@.subrange(i as int, n as int);
        if i + 1 < n && chars[i] == '\r' && chars[i + 1] == '\n' {
            push_char(&mut result, '\n');
            assert(rest.subrange(2, rest.len() as int) == chars@.subrange(i + 2, n as int));
            i = i + 2;
        } else {
            push_char(&mut result, chars[i]);
            assert(rest.drop_first() == chars@.subrange(i + 1, n as int));
            i = i + 1;
        }
    }
    result
}

/// Whether two texts are the same.
pub fn str_eq(a: &str, b: &str) -> (same: bool)
    ensures
        same == (a@ == b@),
{
    let x = a.as_bytes();
    let y = b.as_bytes();
    proof {
        vstd::utf8::encode_utf8_decode_utf8(a@);
        vstd::utf8::encode_utf8_decode_utf8(b@);
    }
    if x.len() != y.len() {
        return false;
    }
    let n = x.len();
    for i in 0..n
        invariant
            n == x@.len(),
            n == y@.len(),
            x@ == a.spec_bytes(),
            y@ == b.spec_bytes(),
            forall|k: int| 0 <= k < i ==> x@[k] == y@[k],
    {
        if x[i] != y[i] {
            return false;
        }
    }
    assert(x@ == y@);
    true
}

/// A text without backslashes reads as itself: interpreting escape sequences leaves it as
/// it is.
pub proof fn lemma_unescape_plain(s: Seq<char>)
    requires
        forall|i: int| 0 <= i < s.len() ==> s[i] != '\\',
    ensures
        spec_unescape(s) == s,
    decreases s.len(),
{
    if s.len() > 0 {
        lemma_unescape_plain(s.drop_first());
        assert(seq![s[0]] + s.drop_first() =~= s);
    }
}

/// Removing leading quotes leaves a text that does not start with a quote.
pub proof fn lemma_trim_start_quotes(s: Seq<char>)
    ensures
        trim_start_quotes(s).len() > 0 ==> trim_start_quotes(s)[0] != '"',
        trim_start_quotes(s).len() <= s.len(),
        trim_start_quotes(s) == s.subrange(s.len() - trim_start_quotes(s).len(), s.len() as int),
    decreases s.len(),
{
    if s.len() > 0 && s[0] == '"' {
        lemma_trim_start_quotes(s.drop_first());
        let r = trim_start_quotes(s.drop_first());
        assert(s.drop_first().subrange(s.len() - 1 - r.len(), s.len() - 1) =~= s.subrange(
            s.len() - r.len(),
            s.len() as int,
        ));
    } else {
        assert(s.subrange(0, s.len() as int) =~= s);
    }
}

/// Removing trailing quotes from a text that does not start with a quote leaves a text
/// that neither starts nor ends with one.
pub proof fn lemma_trim_end_quotes(s: Seq<char>)
    requires
        s.len() > 0 ==> s[0] != '"',
    ensures
        trim_end_quotes(s).len() > 0 ==> trim_end_quotes(s)[0] != '"' && trim_end_quotes(s).last()
            != '"',
        trim_end_quotes(s).len() <= s.len(),
        trim_end_quotes(s) == s.subrange(0, trim_end_quotes(s).len() as int),
    decreases s.len(),
{
    if s.len() > 0 && s.last() == '"' {
        lemma_trim_end_quotes(s.drop_last());
        let r = trim_end_quotes(s.drop_last());
        assert(s.drop_last().subrange(0, r.len() as int) =~= s.subrange(0, r.len() as int));
    } else {
        assert(s.subrange(0, s.len() as int) =~= s);
    }
}

/// A text with its quotes stripped neither starts nor ends with a quote, and is a stretch
/// of the original text.
pub proof fn lemma_strip_quotes(s: Seq<char>)
    ensures
        spec_strip_quotes(s).len() > 0 ==> spec_strip_quotes(s)[0] != '"' && spec_strip_quotes(
            s,
        ).last() != '"',
        exists|i: int|
            0 <= i <= s.len() - spec_strip_quotes(s).len() && #[trigger] s.subrange(
                i,
                i + spec_strip_quotes(s).len(),
            ) == spec_strip_quotes(s),
{
    lemma_trim_start_quotes(s);
    let t = trim_start_quotes(s);
    lemma_trim_end_quotes(t);
    let r = trim_end_quotes(t);
    let i = s.len() - t.len();
    assert(s.subrange(i, i + r.len()) =~= t.subrange(0, r.len() as int));
    assert(r == spec_strip_quotes(s));
    assert(s.subrange(i, i + spec_strip_quotes(s).len()) == spec_strip_quotes(s));
}

/// Stripping quotes twice strips nothing more.
pub proof fn lemma_strip_quotes_idempotent(s: Seq<char>)
    ensures
        spec_strip_quotes(spec_strip_quotes(s)) == spec_strip_quotes(s),
{
    lemma_strip_quotes(s);
    let r = spec_strip_quotes(s);
    if r.len() > 0 {
        assert(trim_start_quotes(r) == r);
        assert(trim_end_quotes(r) == r);
    } else {
        assert(trim_start_quotes(r) =~= r);
    }
}

} // verus!
