use vstd::prelude::*;

verus! {

/// True for an ASCII upper-case letter 'A'..='Z'.
pub open spec fn is_ascii_upper(c: char) -> bool {
    65 <= c as int && c as int <= 90
}

/// True for an ASCII lower-case letter 'a'..='z'.
pub open spec fn is_ascii_lower(c: char) -> bool {
    97 <= c as int && c as int <= 122
}

/// True for an ASCII decimal digit '0'..='9'.
pub open spec fn is_ascii_digit(c: char) -> bool {
    48 <= c as int && c as int <= 57
}

/// ASCII lower-casing of one character; everything outside 'A'..='Z' is unchanged.
pub open spec fn lower_char(c: char) -> char {
    if is_ascii_upper(c) {
        ((c as u8 + 32) as char)
    } else {
        c
    }
}

/// ASCII upper-casing of one character; everything outside 'a'..='z' is unchanged.
pub open spec fn upper_char(c: char) -> char {
    if is_ascii_lower(c) {
        ((c as u8 - 32) as char)
    } else {
        c
    }
}

/// ASCII lower-casing of a character sequence (simple case folding).
pub open spec fn lower_seq(s: Seq<char>) -> Seq<char> {
    s.map_values(|c: char| lower_char(c))
}

/// ASCII upper-casing of a character sequence.
pub open spec fn upper_seq(s: Seq<char>) -> Seq<char> {
    s.map_values(|c: char| upper_char(c))
}

/// Title-casing of a single word: the first character upper-cased, the rest kept.
pub open spec fn title_seq(s: Seq<char>) -> Seq<char> {
    if s.len() == 0 {
        s
    } else {
        s.update(0, upper_char(s[0]))
    }
}

/// Case-insensitive match of `c` against the ASCII lower-case letter `l`:
/// `c` is `l` itself or its upper-case counterpart.
pub open spec fn matches_ci(c: char, l: char) -> bool {
    c == l || c as int + 32 == l as int
}

/// A sequence made of ASCII lower-case letters only.
pub open spec fn is_lower_word(s: Seq<char>) -> bool {
    forall|i: int| 0 <= i < s.len() ==> is_ascii_lower(#[trigger] s[i])
}

/// The index of the first occurrence of `c` in `s` at or after `i`,
/// or `s.len()` if there is none.
pub open spec fn idx_of(s: Seq<char>, i: int, c: char) -> int
    decreases s.len() - i,
    when 0 <= i <= s.len()
{
    if i >= s.len() {
        s.len() as int
    } else if s[i] == c {
        i
    } else {
        idx_of(s, i + 1, c)
    }
}

pub proof fn lemma_idx_of(s: Seq<char>, i: int, c: char)
    requires
        0 <= i <= s.len(),
    ensures
        i <= idx_of(s, i, c) <= s.len(),
        forall|j: int| i <= j < idx_of(s, i, c) ==> #[trigger] s[j] != c,
        idx_of(s, i, c) < s.len() ==> s[idx_of(s, i, c)] == c,
    decreases s.len() - i,
{
    if i < s.len() && s[i] != c {
        lemma_idx_of(s, i + 1, c);
    }
}

/// Lower-casing fixes every word of ASCII lower-case letters, and undoes
/// title-casing and upper-casing of such a word.
pub proof fn lemma_lower_word_folds(w: Seq<char>)
    requires
        is_lower_word(w),
    ensures
        lower_seq(w) == w,
        lower_seq(title_seq(w)) == w,
        lower_seq(upper_seq(w)) == w,
{
    assert forall|i: int| 0 <= i < w.len() implies lower_char(upper_char(#[trigger] w[i]))
        == w[i] by {
        assert(is_ascii_lower(w[i]));
    }
    assert(lower_seq(w) =~= w);
    assert(lower_seq(upper_seq(w)) =~= w);
    if w.len() > 0 {
        assert(lower_seq(title_seq(w)) =~= w);
    }
}

/// `idx_of` is pinned down by the properties a scanning loop establishes.
pub proof fn lemma_idx_of_eq(s: Seq<char>, i: int, j: int, c: char)
    requires
        0 <= i <= j <= s.len(),
        forall|k: int| i <= k < j ==> #[trigger] s[k] != c,
        j < s.len() ==> s[j] == c,
    ensures
        idx_of(s, i, c) == j,
    decreases j - i,
{
    if i < j {
        lemma_idx_of_eq(s, i + 1, j, c);
    }
}

/// Exec mirror of `is_ascii_digit`.
pub fn digit_check(c: char) -> (r: bool)
    ensures
        r == is_ascii_digit(c),
{
    c as u32 >= 48 && c as u32 <= 57
}

/// Exec mirror of `matches_ci`: case-insensitive match against an ASCII
/// lower-case letter.
pub fn char_ci(c: char, l: char) -> (r: bool)
    ensures
        r == matches_ci(c, l),
{
    c == l || c as u32 + 32 == l as u32
}

/// Exec mirror of `lower_char`.
pub fn lower_char_x(c: char) -> (r: char)
    ensures
        r == lower_char(c),
{
    if c as u32 >= 65 && c as u32 <= 90 {
        (c as u8 + 32) as char
    } else {
        c
    }
}

/// Character-wise equality of a string with a key.
pub fn str_eq(s: &str, key: &str) -> (r: bool)
    ensures
        r == (s@ == key@),
{
    let n = s.unicode_len();
    if n != key.unicode_len() {
        proof {
            assert(s@ != key@);
        }
        return false;
    }
    let mut i: usize = 0;
    while i < n
        invariant
            n == s@.len() == key@.len(),
            0 <= i <= n,
            forall|j: int| 0 <= j < i ==> s@[j] == key@[j],
        decreases n - i,
    {
        if s.get_char(i) != key.get_char(i) {
            proof {
                assert(s@ != key@);
            }
            return false;
        }
        i = i + 1;
    }
    proof {
        assert(s@ =~= key@);
    }
    true
}

/// Equality of the ASCII-lower-cased string with an (already lower-case) key.
pub fn str_eq_folded(s: &str, key: &str) -> (r: bool)
    ensures
        r == (lower_seq(s@) == key@),
{
    let n = s.unicode_len();
    if n != key.unicode_len() {
        proof {
            assert(lower_seq(s@).len() == s@.len());
            assert(lower_seq(s@) != key@);
        }
        return false;
    }
    let mut i: usize = 0;
    while i < n
        invariant
            n == s@.len() == key@.len(),
            0 <= i <= n,
            forall|j: int| 0 <= j < i ==> lower_char(s@[j]) == key@[j],
        decreases n - i,
    {
        if lower_char_x(s.get_char(i)) != key.get_char(i) {
            proof {
                assert(lower_seq(s@)[i as int] != key@[i as int]);
            }
            return false;
        }
        i = i + 1;
    }
    proof {
        assert(lower_seq(s@) =~= key@);
    }
    true
}

} // verus!
