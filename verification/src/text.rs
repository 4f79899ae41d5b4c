//! The mapping between a track's file name and its display title.
//!
//! File name to title: strip the extension, turn `-` into a space, and
//! capitalize the first character of each hyphen-separated segment
//! (`my-song.wav` becomes `My Song`). Title to file name: lowercase each
//! space-separated word, join the words with `-`, and append `.wav`.
//! Case handling is ASCII-only; other characters pass through unchanged.
//!
//! For file names made of nonempty lowercase words separated by single
//! hyphens, the two maps invert each other
//! ([`lemma_title_file_round_trip`]).

use vstd::prelude::*;
use vstd::string::StrSliceExecFns;

verus! {

/// Relies on `alloc::string::String::push`: appends the given character to
/// the end of this string.
pub assume_specification[ String::push ](s: &mut String, ch: char)
    ensures
        final(s)@ == old(s)@.push(ch),
;

/// `c` with an ASCII lowercase letter capitalized.
pub open spec fn spec_upper(c: char) -> char {
    if 'a' <= c && c <= 'z' {
        ((c as u8) - 32) as char
    } else {
        c
    }
}

/// `c` with an ASCII uppercase letter lowercased.
pub open spec fn spec_lower(c: char) -> char {
    if 'A' <= c && c <= 'Z' {
        ((c as u8) + 32) as char
    } else {
        c
    }
}

/// Exec form of [`spec_upper`].
pub fn upper_char(c: char) -> (r: char)
    ensures
        r == spec_upper(c),
{
    if 'a' <= c && c <= 'z' {
        ((c as u8) - 32) as char
    } else {
        c
    }
}

/// Exec form of [`spec_lower`].
pub fn lower_char(c: char) -> (r: char)
    ensures
        r == spec_lower(c),
{
    if 'A' <= c && c <= 'Z' {
        ((c as u8) + 32) as char
    } else {
        c
    }
}

/// Whether a dot occurs anywhere in `s`.
pub open spec fn has_dot(s: Seq<char>) -> bool
    decreases s.len(),
{
    s.len() > 0 && (s.last() == '.' || has_dot(s.drop_last()))
}

/// `s` with everything from the last dot onward removed; `s` itself when
/// it has no dot.
pub open spec fn strip_ext(s: Seq<char>) -> Seq<char>
    decreases s.len(),
{
    if !has_dot(s) {
        s
    } else if s.last() == '.' {
        s.drop_last()
    } else {
        strip_ext(s.drop_last())
    }
}

pub proof fn lemma_has_dot_iff(s: Seq<char>)
    ensures
        has_dot(s) <==> exists|i: int| 0 <= i < s.len() && s[i] == '.',
    decreases s.len(),
{
    if s.len() > 0 {
        lemma_has_dot_iff(s.drop_last());
        if s.last() == '.' {
            assert(s[s.len() - 1] == '.');
        } else if has_dot(s.drop_last()) {
            let i = choose|i: int| 0 <= i < s.len() - 1 && s.drop_last()[i] == '.';
            assert(s[i] == '.');
        } else if exists|i: int| 0 <= i < s.len() && s[i] == '.' {
            let i = choose|i: int| 0 <= i < s.len() && s[i] == '.';
            assert(s.drop_last()[i] == '.');
        }
    }
}

pub proof fn lemma_strip_ext_no_dot(s: Seq<char>)
    requires
        forall|i: int| 0 <= i < s.len() ==> s[i] != '.',
    ensures
        strip_ext(s) == s,
{
    lemma_has_dot_iff(s);
}

pub proof fn lemma_strip_ext_last_dot(s: Seq<char>, k: int)
    requires
        0 <= k < s.len(),
        s[k] == '.',
        forall|i: int| k < i < s.len() ==> s[i] != '.',
    ensures
        strip_ext(s) == s.subrange(0, k),
    decreases s.len(),
{
    lemma_has_dot_iff(s);
    if k == s.len() - 1 {
        assert(s.drop_last() =~= s.subrange(0, k));
    } else {
        assert(s.drop_last()[k] == '.');
        lemma_strip_ext_last_dot(s.drop_last(), k);
        assert(s.drop_last().subrange(0, k) =~= s.subrange(0, k));
    }
}

/// The title text for a stripped file stem: hyphens become spaces, and a
/// character that starts a hyphen-separated segment is capitalized.
pub open spec fn title_chars(t: Seq<char>) -> Seq<char> {
    Seq::new(
        t.len(),
        |i: int|
            if t[i] == '-' {
                ' '
            } else if i == 0 || t[i - 1] == '-' {
                spec_upper(t[i])
            } else {
                t[i]
            },
    )
}

/// The title shown for a file name.
pub open spec fn spec_title_of(s: Seq<char>) -> Seq<char> {
    title_chars(strip_ext(s))
}

/// Whether `s` has a character that is not a space.
pub open spec fn has_nonspace(s: Seq<char>) -> bool
    decreases s.len(),
{
    s.len() > 0 && (s.last() != ' ' || has_nonspace(s.drop_last()))
}

/// The file stem built from a title: each space-separated word lowercased,
/// words joined with single hyphens; leading, trailing and repeated spaces
/// collapse away.
pub open spec fn file_stem_of(s: Seq<char>) -> Seq<char>
    decreases s.len(),
{
    if s.len() == 0 {
        Seq::empty()
    } else {
        let prefix = file_stem_of(s.drop_last());
        let c = s.last();
        if c == ' ' {
            prefix
        } else if s.len() >= 2 && s[s.len() - 2] == ' ' && has_nonspace(s.drop_last()) {
            prefix.push('-').push(spec_lower(c))
        } else {
            prefix.push(spec_lower(c))
        }
    }
}

/// The `.wav` suffix appended to every file name the player derives.
pub open spec fn wav_ext() -> Seq<char> {
    seq!['.', 'w', 'a', 'v']
}

/// The file name derived from a title.
pub open spec fn spec_file_of(s: Seq<char>) -> Seq<char> {
    file_stem_of(s) + wav_ext()
}

/// Derives the display title of a track from its file name: the extension
/// is stripped, hyphens become spaces, and each segment starts uppercase.
pub fn title_from_file(name: &str) -> (title: String)
    ensures
        title@ == spec_title_of(name@),
{
    let n = name.unicode_len();
    let mut j: usize = n;
    let mut found: bool = false;
    let mut dot: usize = 0;
    while j > 0 && !found
        invariant
            0 <= j <= n,
            n == name@.len(),
            !found ==> forall|k: int| j <= k < n ==> name@[k] != '.',
            found ==> 0 <= dot < n && name@[dot as int] == '.' && forall|k: int|
                dot < k < n ==> name@[k] != '.',
        decreases j,
    {
        j -= 1;
        let c = name.get_char(j);
        if c == '.' {
            found = true;
            dot = j;
        }
    }
    let stem_end: usize = if found {
        dot
    } else {
        n
    };
    proof {
        if found {
            lemma_strip_ext_last_dot(name@, dot as int);
        } else {
            lemma_strip_ext_no_dot(name@);
            assert(name@.subrange(0, n as int) =~= name@);
        }
    }
    let ghost stem: Seq<char> = strip_ext(name@);
    assert(stem =~= name@.subrange(0, stem_end as int));

    let mut title = String::new();
    let mut i: usize = 0;
    let mut prev: char = '-';
    while i < stem_end
        invariant
            0 <= i <= stem_end <= n,
            n == name@.len(),
            stem == name@.subrange(0, stem_end as int),
            title@ == title_chars(stem).subrange(0, i as int),
            i > 0 ==> prev == stem[i - 1],
        decreases stem_end - i,
    {
        let c = name.get_char(i);
        assert(c == stem[i as int]);
        let out_c: char = if c == '-' {
            ' '
        } else if i == 0 || prev == '-' {
            upper_char(c)
        } else {
            c
        };
        title.push(out_c);
        assert(title@ =~= title_chars(stem).subrange(0, i + 1));
        prev = c;
        i += 1;
    }
    assert(title_chars(stem).subrange(0, stem_end as int) =~= title_chars(stem));
    title
}

/// Derives a track's file name from its title: each space-separated word
/// lowercased, the words joined with hyphens, and `.wav` appended.
pub fn file_from_title(title: &str) -> (name: String)
    ensures
        name@ == spec_file_of(title@),
{
    let n = title.unicode_len();
    let mut name = String::new();
    let mut i: usize = 0;
    let mut prev_space: bool = false;
    let mut seen: bool = false;
    while i < n
        invariant
            0 <= i <= n,
            n == title@.len(),
            name@ == file_stem_of(title@.subrange(0, i as int)),
            seen == has_nonspace(title@.subrange(0, i as int)),
            i > 0 ==> prev_space == (title@[i - 1] == ' '),
        decreases n - i,
    {
        let c = title.get_char(i);
        let ghost pre = title@.subrange(0, i as int);
        let ghost post = title@.subrange(0, i + 1);
        proof {
            assert(post.drop_last() =~= pre);
            assert(post.last() == title@[i as int]);
        }
        if c != ' ' {
            if seen && prev_space {
                name.push('-');
            }
            name.push(lower_char(c));
            seen = true;
        }
        assert(name@ =~= file_stem_of(post));
        prev_space = c == ' ';
        i += 1;
    }
    assert(title@.subrange(0, n as int) =~= title@);
    name.push('.');
    name.push('w');
    name.push('a');
    name.push('v');
    assert(name@ =~= spec_file_of(title@));
    name
}

/// A character that may stand inside a word of a plain file name: a
/// lowercase ASCII letter or a digit.
pub open spec fn is_word_char(c: char) -> bool {
    ('a' <= c && c <= 'z') || ('0' <= c && c <= '9')
}

/// A plain file stem: nonempty lowercase words separated by single
/// hyphens, with no leading or trailing hyphen.
pub open spec fn plain_stem(s: Seq<char>) -> bool {
    &&& s.len() > 0
    &&& forall|i: int| 0 <= i < s.len() ==> (is_word_char(#[trigger] s[i]) || s[i] == '-')
    &&& s[0] != '-'
    &&& s[s.len() - 1] != '-'
    &&& forall|i: int| 0 <= i < s.len() - 1 ==> !(#[trigger] s[i] == '-' && s[i + 1] == '-')
}

proof fn lemma_round_trip_prefix(s: Seq<char>, i: int)
    requires
        plain_stem(s),
        0 <= i <= s.len(),
    ensures
        has_nonspace(title_chars(s).subrange(0, i)) == (i > 0),
        i > 0 && s[i - 1] == '-' ==> file_stem_of(title_chars(s).subrange(0, i)) == s.subrange(
            0,
            i - 1,
        ),
        i == 0 || s[i - 1] != '-' ==> file_stem_of(title_chars(s).subrange(0, i)) == s.subrange(
            0,
            i,
        ),
    decreases i,
{
    let t = title_chars(s);
    if i > 0 {
        lemma_round_trip_prefix(s, i - 1);
        let tp = t.subrange(0, i);
        assert(tp.drop_last() =~= t.subrange(0, i - 1));
        let c = s[i - 1];
        if c == '-' {
            assert(tp.last() == ' ');
            assert(i - 1 > 0) by {
                assert(s[0] != '-');
            }
            assert(s[i - 2] != '-');
            assert(file_stem_of(tp) == s.subrange(0, i - 1));
        } else {
            assert(is_word_char(c));
            assert(tp.last() != ' ');
            assert(spec_lower(tp.last()) == c);
            if i - 1 == 0 {
                assert(file_stem_of(tp) =~= s.subrange(0, 1));
            } else if s[i - 2] == '-' {
                assert(tp[i - 2] == ' ');
                assert(has_nonspace(tp.drop_last()));
                assert(file_stem_of(tp) == file_stem_of(tp.drop_last()).push('-').push(c));
                assert(file_stem_of(tp.drop_last()) == s.subrange(0, i - 2));
                assert(s.subrange(0, i - 2).push('-').push(c) =~= s.subrange(0, i));
            } else {
                assert(tp[i - 2] != ' ');
                assert(file_stem_of(tp) == file_stem_of(tp.drop_last()).push(c));
                assert(file_stem_of(tp.drop_last()) == s.subrange(0, i - 1));
                assert(s.subrange(0, i - 1).push(c) =~= s.subrange(0, i));
            }
        }
    }
}

/// The round trip of the two name maps: for a file name made of nonempty
/// lowercase words separated by single hyphens and ending in `.wav`,
/// deriving the title and then the file name gives the original name back.
pub proof fn lemma_title_file_round_trip(s: Seq<char>)
    requires
        plain_stem(s),
    ensures
        spec_file_of(spec_title_of(s + wav_ext())) == s + wav_ext(),
{
    let f = s + wav_ext();
    assert(f[s.len() as int] == '.');
    assert forall|i: int| s.len() < i < f.len() implies f[i] != '.' by {
        assert(f[i] == wav_ext()[i - s.len()]);
    }
    assert forall|i: int| 0 <= i < s.len() implies f[i] != '.' by {
        assert(f[i] == s[i]);
        assert(is_word_char(s[i]) || s[i] == '-');
    }
    lemma_strip_ext_last_dot(f, s.len() as int);
    assert(f.subrange(0, s.len() as int) =~= s);
    assert(spec_title_of(f) == title_chars(s));

    lemma_round_trip_prefix(s, s.len() as int);
    assert(s.subrange(0, s.len() as int) =~= s);
    assert(title_chars(s).subrange(0, s.len() as int) =~= title_chars(s));
    assert(file_stem_of(title_chars(s)) == s);
}

} // verus!
