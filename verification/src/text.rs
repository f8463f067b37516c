use vstd::prelude::*;

verus! {

/// What `str::to_uppercase` returns for a string (Unicode upper-case mapping).
pub uninterp spec fn uppercased(s: Seq<char>) -> Seq<char>;

/// Every character of `s` is ASCII.
pub open spec fn ascii_text(s: Seq<char>) -> bool {
    forall|i: int| 0 <= i < s.len() ==> #[trigger] s[i] <= '\x7f'
}

/// White space as Unicode defines it (the property White_Space): tab to carriage return,
/// space, next line, no-break space, Ogham space mark, the spaces from en quad to hair space,
/// line and paragraph separator, narrow no-break space, medium mathematical space and
/// ideographic space.
pub open spec fn is_white_space(c: char) -> bool {
    ||| ('\t' <= c && c <= '\r')
    ||| c == ' '
    ||| c == '\u{85}'
    ||| c == '\u{a0}'
    ||| c == '\u{1680}'
    ||| ('\u{2000}' <= c && c <= '\u{200a}')
    ||| c == '\u{2028}'
    ||| c == '\u{2029}'
    ||| c == '\u{202f}'
    ||| c == '\u{205f}'
    ||| c == '\u{3000}'
}

/// `s` without its leading white space.
pub open spec fn strip_leading_blanks(s: Seq<char>) -> Seq<char>
    decreases s.len(),
{
    if s.len() > 0 && is_white_space(s[0]) {
        strip_leading_blanks(s.drop_first())
    } else {
        s
    }
}

/// `s` without its trailing white space.
pub open spec fn strip_trailing_blanks(s: Seq<char>) -> Seq<char>
    decreases s.len(),
{
    if s.len() > 0 && is_white_space(s.last()) {
        strip_trailing_blanks(s.drop_last())
    } else {
        s
    }
}

/// `s` without leading and trailing white space.
pub open spec fn trimmed(s: Seq<char>) -> Seq<char> {
    strip_trailing_blanks(strip_leading_blanks(s))
}

/// The upper-case form of an ASCII character: `a` to `z` become `A` to `Z`, the rest stay.
pub open spec fn ascii_upper_char(c: char) -> char {
    if 'a' <= c && c <= 'z' {
        (c as int - 32) as char
    } else {
        c
    }
}

/// Each character of `s` in its ASCII upper-case form.
pub open spec fn ascii_upper(s: Seq<char>) -> Seq<char> {
    Seq::new(s.len(), |i: int| ascii_upper_char(s[i]))
}

/// The lower-case form of an ASCII character: `A` to `Z` become `a` to `z`, the rest stay.
pub open spec fn ascii_lower_char(c: char) -> char {
    if 'A' <= c && c <= 'Z' {
        (c as int + 32) as char
    } else {
        c
    }
}

/// Each character of `s` in its ASCII lower-case form.
pub open spec fn ascii_lower(s: Seq<char>) -> Seq<char> {
    Seq::new(s.len(), |i: int| ascii_lower_char(s[i]))
}

proof fn lemma_lower_strip_leading(s: Seq<char>)
    ensures
        strip_leading_blanks(ascii_lower(s)) == ascii_lower(strip_leading_blanks(s)),
    decreases s.len(),
{
    if s.len() > 0 {
        assert(ascii_lower(s)[0] == ascii_lower_char(s[0]));
        assert(is_white_space(ascii_lower_char(s[0])) == is_white_space(s[0]));
        if is_white_space(s[0]) {
            assert(ascii_lower(s).drop_first() =~= ascii_lower(s.drop_first()));
            lemma_lower_strip_leading(s.drop_first());
        }
    }
}

proof fn lemma_lower_strip_trailing(s: Seq<char>)
    ensures
        strip_trailing_blanks(ascii_lower(s)) == ascii_lower(strip_trailing_blanks(s)),
    decreases s.len(),
{
    if s.len() > 0 {
        assert(ascii_lower(s).last() == ascii_lower_char(s.last()));
        assert(is_white_space(ascii_lower_char(s.last())) == is_white_space(s.last()));
        if is_white_space(s.last()) {
            assert(ascii_lower(s).drop_last() =~= ascii_lower(s.drop_last()));
            lemma_lower_strip_trailing(s.drop_last());
        }
    }
}

/// Writing a text in lower case before trimming it and turning it to upper case changes
/// nothing: trimming ignores the case of letters, and upper case undoes lower case.
pub proof fn law_case_is_ignored(s: Seq<char>)
    ensures
        ascii_upper(trimmed(ascii_lower(s))) == ascii_upper(trimmed(s)),
        ascii_text(s) ==> ascii_text(ascii_lower(s)),
{
    lemma_lower_strip_leading(s);
    lemma_lower_strip_trailing(strip_leading_blanks(s));
    let t = trimmed(s);
    assert(ascii_upper(ascii_lower(t)) =~= ascii_upper(t)) by {
        assert forall|i: int| 0 <= i < t.len() implies ascii_upper_char(ascii_lower_char(
            #[trigger] t[i],
        )) == ascii_upper_char(t[i]) by {
            let c = t[i];
            if 'A' <= c && c <= 'Z' {
                assert(ascii_lower_char(c) as int == c as int + 32);
                assert(ascii_upper_char(c) == c);
            }
        }
    }
    if ascii_text(s) {
        assert forall|i: int| 0 <= i < ascii_lower(s).len() implies #[trigger] ascii_lower(s)[i]
            <= '\x7f' by {
            assert(s[i] <= '\x7f');
        }
    }
}

/// Stripping white space keeps a text ASCII.
pub proof fn lemma_trimmed_stays_ascii(s: Seq<char>)
    requires
        ascii_text(s),
    ensures
        ascii_text(strip_leading_blanks(s)),
        ascii_text(trimmed(s)),
{
    lemma_strip_leading_ascii(s);
    lemma_strip_trailing_ascii(strip_leading_blanks(s));
}

proof fn lemma_strip_leading_ascii(s: Seq<char>)
    requires
        ascii_text(s),
    ensures
        ascii_text(strip_leading_blanks(s)),
    decreases s.len(),
{
    if s.len() > 0 && is_white_space(s[0]) {
        assert(ascii_text(s.drop_first())) by {
            assert forall|i: int| 0 <= i < s.drop_first().len() implies #[trigger] s.drop_first()[i]
                <= '\x7f' by {
                assert(s.drop_first()[i] == s[i + 1]);
            }
        }
        lemma_strip_leading_ascii(s.drop_first());
    }
}

proof fn lemma_strip_trailing_ascii(s: Seq<char>)
    requires
        ascii_text(s),
    ensures
        ascii_text(strip_trailing_blanks(s)),
    decreases s.len(),
{
    if s.len() > 0 && is_white_space(s.last()) {
        assert(ascii_text(s.drop_last())) by {
            assert forall|i: int| 0 <= i < s.drop_last().len() implies #[trigger] s.drop_last()[i]
                <= '\x7f' by {
                assert(s.drop_last()[i] == s[i]);
            }
        }
        lemma_strip_trailing_ascii(s.drop_last());
    }
}

/// Appends one character (`String::push`).
#[verifier::external_body]
pub(crate) fn push_char(s: &mut String, c: char)
    ensures
        final(s)@ == old(s)@.push(c),
{
    s.push(c);
}

/// The string without leading and trailing white space (`str::trim`), white space being the
/// characters with the Unicode property White_Space.
#[verifier::external_body]
pub(crate) fn trim_str(s: &str) -> (res: &str)
    ensures
        res@ == trimmed(s@),
{
    s.trim()
}

/// The string in upper case (`str::to_uppercase`). Of an ASCII string, each character maps to
/// its ASCII upper-case form; of other strings nothing is stated beyond the name of the result.
#[verifier::external_body]
pub(crate) fn to_upper(s: &str) -> (res: String)
    ensures
        res@ == uppercased(s@),
        ascii_text(s@) ==> res@ == ascii_upper(s@),
{
    s.to_uppercase()
}

} // verus!
