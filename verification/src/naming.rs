//! Deterministic text transforms for identifiers and documentation:
//! upper-camel-case identifier conversion, sentence casing, brand-name
//! fixes, and greedy word wrapping of documentation lines.

use vstd::prelude::*;

verus! {

/// Greatest total width (prefix included) of a wrapped documentation line.
pub const MAX_LINE_LENGTH: usize = 100;

pub open spec fn is_ascii_lower(c: char) -> bool {
    97 <= c as u32 && c as u32 <= 122
}

pub open spec fn is_ascii_upper(c: char) -> bool {
    65 <= c as u32 && c as u32 <= 90
}

/// An ASCII lowercase letter mapped to uppercase; any other character kept.
pub open spec fn upper_char(c: char) -> char {
    if is_ascii_lower(c) {
        ((c as u32 - 32) as u8) as char
    } else {
        c
    }
}

/// An ASCII uppercase letter mapped to lowercase; any other character kept.
pub open spec fn lower_char(c: char) -> char {
    if is_ascii_upper(c) {
        ((c as u32 + 32) as u8) as char
    } else {
        c
    }
}

fn to_upper(c: char) -> (r: char)
    ensures
        r == upper_char(c),
{
    let u = c as u32;
    if 97 <= u && u <= 122 {
        ((u - 32) as u8) as char
    } else {
        c
    }
}

fn to_lower(c: char) -> (r: char)
    ensures
        r == lower_char(c),
{
    let u = c as u32;
    if 65 <= u && u <= 90 {
        ((u + 32) as u8) as char
    } else {
        c
    }
}

/// Relies on std's `String::push`: appends exactly one character.
#[verifier::external_body]
fn push_char(s: &mut String, c: char)
    ensures
        final(s)@ == old(s)@.push(c),
{
    s.push(c)
}

/// The characters contributed by position `i` of the identifier `s`:
/// underscores vanish, a character that starts a word (the first position,
/// or one right after an underscore) is uppercased, every other one is
/// lowercased.
pub open spec fn pascal_char_at(s: Seq<char>, i: int) -> Seq<char> {
    if s[i] == '_' {
        Seq::empty()
    } else if i == 0 || s[i - 1] == '_' {
        seq![upper_char(s[i])]
    } else {
        seq![lower_char(s[i])]
    }
}

pub open spec fn pascal_prefix(s: Seq<char>, n: int) -> Seq<char>
    decreases n,
{
    if n <= 0 {
        Seq::empty()
    } else {
        pascal_prefix(s, n - 1) + pascal_char_at(s, n - 1)
    }
}

/// An underscore-separated identifier rewritten in upper camel case.
pub open spec fn pascal_of(s: Seq<char>) -> Seq<char> {
    pascal_prefix(s, s.len() as int)
}

/// Converts an underscore-separated identifier to upper camel case:
/// `"txn_hash"` becomes `"TxnHash"`.
pub fn to_pascal_case(name: &str) -> (r: String)
    ensures
        r@ == pascal_of(name@),
{
    let n = name.unicode_len();
    let mut result = String::new();
    let mut i: usize = 0;
    while i < n
        invariant
            i <= n,
            n == name@.len(),
            result@ == pascal_prefix(name@, i as int),
        decreases n - i,
    {
        let c = name.get_char(i);
        if c != '_' {
            let starts_word = i == 0 || name.get_char(i - 1) == '_';
            if starts_word {
                push_char(&mut result, to_upper(c));
            } else {
                push_char(&mut result, to_lower(c));
            }
        }
        i = i + 1;
    }
    result
}

/// The character contributed by position `i` under sentence casing: the
/// first character is uppercased unless it is itself a period, a character
/// standing two places after a period and right after a space is uppercased,
/// and every other character is lowercased.
pub open spec fn sentence_char_at(s: Seq<char>, i: int) -> char {
    if (i == 0 && s[0] != '.') || (i >= 2 && s[i - 2] == '.' && s[i - 1] == ' ') {
        upper_char(s[i])
    } else {
        lower_char(s[i])
    }
}

pub open spec fn sentence_prefix(s: Seq<char>, n: int) -> Seq<char>
    decreases n,
{
    if n <= 0 {
        Seq::empty()
    } else {
        sentence_prefix(s, n - 1).push(sentence_char_at(s, n - 1))
    }
}

/// Free text rewritten in sentence case: the first character and the first
/// character of each following sentence (right after a period-space pair)
/// are uppercased, everything else is lowercased.
pub open spec fn sentence_of(s: Seq<char>) -> Seq<char> {
    sentence_prefix(s, s.len() as int)
}

/// Capitalizes the first character and the first character after each
/// period-space pair, lowercasing the rest.
pub fn to_sentence_case(name: &str) -> (r: String)
    ensures
        r@ == sentence_of(name@),
{
    let n = name.unicode_len();
    let mut result = String::new();
    let mut i: usize = 0;
    while i < n
        invariant
            i <= n,
            n == name@.len(),
            result@ == sentence_prefix(name@, i as int),
        decreases n - i,
    {
        let c = name.get_char(i);
        let first = i == 0 && c != '.';
        let new_sentence = i >= 2 && name.get_char(i - 2) == '.' && name.get_char(i - 1) == ' ';
        if first || new_sentence {
            push_char(&mut result, to_upper(c));
        } else {
            push_char(&mut result, to_lower(c));
        }
        i = i + 1;
    }
    result
}

/// Every non-overlapping occurrence of `pat` in `s`, scanned left to right,
/// replaced by `rep`. An empty pattern leaves `s` unchanged.
pub open spec fn replace_of(s: Seq<char>, pat: Seq<char>, rep: Seq<char>) -> Seq<char>
    recommends
        pat.len() > 0,
    decreases s.len(),
{
    if s.len() < pat.len() || pat.len() == 0 {
        s
    } else if s.subrange(0, pat.len() as int) == pat {
        rep + replace_of(s.skip(pat.len() as int), pat, rep)
    } else {
        seq![s[0]] + replace_of(s.skip(1), pat, rep)
    }
}

/// Whether the characters of `pat` occur in `s` starting at position `i`.
fn matches_at(s: &str, pat: &str, i: usize) -> (b: bool)
    requires
        i + pat@.len() <= s@.len(),
    ensures
        b == (s@.subrange(i as int, i as int + pat@.len() as int) == pat@),
{
    let n = s.unicode_len();
    let m = pat.unicode_len();
    let mut j: usize = 0;
    while j < m
        invariant
            j <= m,
            m == pat@.len(),
            n == s@.len(),
            i + m <= n,
            forall|k: int| 0 <= k < j ==> s@[i + k] == pat@[k],
        decreases m - j,
    {
        if s.get_char(i + j) != pat.get_char(j) {
            proof {
                let jj = j as int;
                assert(s@.subrange(i as int, i as int + pat@.len() as int)[jj] != pat@[jj]);
            }
            return false;
        }
        j = j + 1;
    }
    proof {
        assert(s@.subrange(i as int, i as int + pat@.len() as int) =~= pat@);
    }
    true
}

/// Whether two string slices hold the same characters.
pub fn str_eq(a: &str, b: &str) -> (r: bool)
    ensures
        r == (a@ == b@),
{
    let n = a.unicode_len();
    if n != b.unicode_len() {
        return false;
    }
    let r = matches_at(a, b, 0);
    proof {
        assert(a@.subrange(0, a@.len() as int) =~= a@);
    }
    r
}

/// Replaces every non-overlapping occurrence of `pat` in `s` by `rep`,
/// scanning left to right.
pub fn replace_str(s: &str, pat: &str, rep: &str) -> (r: String)
    requires
        pat@.len() > 0,
    ensures
        r@ == replace_of(s@, pat@, rep@),
{
    let n = s.unicode_len();
    let m = pat.unicode_len();
    let mut result = String::new();
    let mut i: usize = 0;
    proof {
        assert(s@.skip(0) =~= s@);
        assert(Seq::<char>::empty() + replace_of(s@, pat@, rep@) =~= replace_of(s@, pat@, rep@));
    }
    while i < n
        invariant
            i <= n,
            n == s@.len(),
            m == pat@.len(),
            m > 0,
            result@ + replace_of(s@.skip(i as int), pat@, rep@) == replace_of(s@, pat@, rep@),
        decreases n - i,
    {
        let ghost prev = result@;
        if m <= n - i && matches_at(s, pat, i) {
            result.append(rep);
            proof {
                let t = s@.skip(i as int);
                assert(t.subrange(0, m as int) =~= s@.subrange(i as int, i as int + m as int));
                assert(t.skip(m as int) =~= s@.skip(i as int + m as int));
                assert(replace_of(t, pat@, rep@) == rep@ + replace_of(
                    s@.skip(i as int + m as int),
                    pat@,
                    rep@,
                ));
                assert(result@ + replace_of(s@.skip(i as int + m as int), pat@, rep@) =~= prev
                    + replace_of(t, pat@, rep@));
            }
            i = i + m;
        } else {
            let c = s.get_char(i);
            push_char(&mut result, c);
            proof {
                let t = s@.skip(i as int);
                assert(t.len() == n - i);
                assert(t.skip(1) =~= s@.skip(i as int + 1));
                if t.len() >= m {
                    assert(t.subrange(0, m as int) =~= s@.subrange(
                        i as int,
                        i as int + m as int,
                    ));
                    assert(t.subrange(0, m as int) != pat@);
                    assert(replace_of(t, pat@, rep@) == seq![t[0]] + replace_of(
                        t.skip(1),
                        pat@,
                        rep@,
                    ));
                } else {
                    assert(replace_of(t, pat@, rep@) == t);
                    assert(replace_of(t.skip(1), pat@, rep@) == t.skip(1));
                    assert(t =~= seq![t[0]] + t.skip(1));
                }
                assert(t[0] == s@[i as int]);
                assert(result@ + replace_of(s@.skip(i as int + 1), pat@, rep@) =~= prev
                    + replace_of(t, pat@, rep@));
            }
            i = i + 1;
        }
    }
    proof {
        assert(s@.skip(n as int) =~= Seq::<char>::empty());
        assert(result@ + replace_of(s@.skip(n as int), pat@, rep@) =~= result@);
    }
    result
}

/// The generated identifier for a schema or enumeration-literal name: upper
/// camel case, with the literal token `"Txn"` then rewritten to
/// `"Transaction"`.
pub open spec fn rs_name_of(s: Seq<char>) -> Seq<char> {
    replace_of(pascal_of(s), "Txn"@, "Transaction"@)
}

/// Converts a schema name to the identifier used in generated declarations:
/// upper camel case, with `"Txn"` expanded to `"Transaction"`.
pub fn to_starknet_rs_name(name: &str) -> (r: String)
    ensures
        r@ == rs_name_of(name@),
{
    proof {
        reveal_strlit("Txn");
    }
    let p = to_pascal_case(name);
    replace_str(p.as_str(), "Txn", "Transaction")
}

/// Sentence-cased text with the brand name's capitalization fixed: the
/// canonical form is restored for the known misspellings, except in the
/// domain suffix, which stays lowercase.
pub open spec fn brand_fixed(s: Seq<char>) -> Seq<char> {
    replace_of(
        replace_of(replace_of(sentence_of(s), "starknet"@, "StarkNet"@), "Starknet"@, "StarkNet"@),
        "StarkNet.io"@,
        "starknet.io"@,
    )
}

/// The documentation text finally attached to a declaration: sentence-cased,
/// brand-fixed, and, when `force_period` is set and the text does not already
/// end with a period, closed by one.
pub open spec fn doc_of(s: Seq<char>, force_period: bool) -> Seq<char> {
    let t = brand_fixed(s);
    if force_period && !(t.len() > 0 && t.last() == '.') {
        t.push('.')
    } else {
        t
    }
}

/// Normalizes documentation text: sentence case, brand-capitalization fixes,
/// and optionally a closing period.
pub fn to_starknet_rs_doc(doc: &str, force_period: bool) -> (r: String)
    ensures
        r@ == doc_of(doc@, force_period),
{
    proof {
        reveal_strlit("starknet");
        reveal_strlit("Starknet");
        reveal_strlit("StarkNet.io");
    }
    let s = to_sentence_case(doc);
    let s = replace_str(s.as_str(), "starknet", "StarkNet");
    let s = replace_str(s.as_str(), "Starknet", "StarkNet");
    let mut s = replace_str(s.as_str(), "StarkNet.io", "starknet.io");
    if force_period {
        let n = s.as_str().unicode_len();
        let ends_with_period = n > 0 && s.as_str().get_char(n - 1) == '.';
        if !ends_with_period {
            push_char(&mut s, '.');
        }
    }
    s
}

/// The position of the first space in `s`, or `s.len()` when there is none.
pub open spec fn first_space(s: Seq<char>) -> nat
    decreases s.len(),
{
    if s.len() == 0 {
        0
    } else if s[0] == ' ' {
        0
    } else {
        1 + first_space(s.skip(1))
    }
}

/// `s` split on single spaces. The empty text yields one empty word, and
/// adjacent spaces yield empty words between them.
pub open spec fn split_spaces(s: Seq<char>) -> Seq<Seq<char>>
    decreases s.len(),
{
    let i = first_space(s) as int;
    if i >= s.len() {
        seq![s]
    } else {
        seq![s.subrange(0, i)] + split_spaces(s.skip(i + 1))
    }
}

proof fn lemma_first_space_at(s: Seq<char>, j: int)
    requires
        0 <= j <= s.len(),
        forall|k: int| 0 <= k < j ==> s[k] != ' ',
        j < s.len() ==> s[j] == ' ',
    ensures
        first_space(s) == j,
    decreases s.len(),
{
    if s.len() == 0 {
    } else if s[0] == ' ' {
    } else {
        assert(forall|k: int| 0 <= k < j - 1 ==> s.skip(1)[k] == s[k + 1]);
        lemma_first_space_at(s.skip(1), j - 1);
    }
}

/// Every position strictly before the first space holds a non-space.
proof fn lemma_first_space_clean(s: Seq<char>, k: int)
    requires
        0 <= k < first_space(s),
        k < s.len(),
    ensures
        s[k] != ' ',
    decreases s.len(),
{
    if s.len() == 0 {
    } else if s[0] == ' ' {
    } else if k > 0 {
        assert(s.skip(1)[k - 1] == s[k]);
        lemma_first_space_clean(s.skip(1), k - 1);
    }
}

/// No word produced by `split_spaces` contains a space.
pub proof fn lemma_split_words_clean(s: Seq<char>)
    ensures
        forall|i: int, j: int|
            0 <= i < split_spaces(s).len() && 0 <= j < split_spaces(s)[i].len()
                ==> split_spaces(s)[i][j] != ' ',
    decreases s.len(),
{
    let f = first_space(s) as int;
    if f >= s.len() {
        assert forall|j: int| 0 <= j < s.len() implies s[j] != ' ' by {
            lemma_first_space_clean(s, j);
        }
    } else {
        assert forall|j: int| 0 <= j < f implies s.subrange(0, f)[j] != ' ' by {
            lemma_first_space_clean(s, j);
        }
        lemma_split_words_clean(s.skip(f + 1));
        assert forall|i: int, j: int|
            0 <= i < split_spaces(s).len() && 0 <= j < split_spaces(s)[i].len() implies split_spaces(
            s,
        )[i][j] != ' ' by {
            if i == 0 {
                assert(split_spaces(s)[0] == s.subrange(0, f));
            } else {
                assert(split_spaces(s)[i] == split_spaces(s.skip(f + 1))[i - 1]);
                assert(split_spaces(s.skip(f + 1))[i - 1][j] != ' ');
            }
        }
    }
}

/// One step of the greedy wrap: consume the words left to right, extending
/// the current line while the prefix, the line and the addition (the word,
/// with a joining space when the line is not empty) stay within
/// [`MAX_LINE_LENGTH`], and flushing the line on overflow. The final line is
/// always emitted, so the result is never empty.
pub open spec fn wrap_step(
    lines: Seq<Seq<char>>,
    cur: Seq<char>,
    words: Seq<Seq<char>>,
    prefix: nat,
) -> Seq<Seq<char>>
    decreases words.len(),
{
    if words.len() == 0 {
        lines.push(cur)
    } else {
        let w = words[0];
        let add_len: int = if cur.len() == 0 {
            w.len() as int
        } else {
            w.len() as int + 1
        };
        if prefix + cur.len() + add_len <= MAX_LINE_LENGTH {
            let joined = if cur.len() == 0 {
                w
            } else {
                cur.push(' ') + w
            };
            wrap_step(lines, joined, words.skip(1), prefix)
        } else {
            wrap_step(lines.push(cur), w, words.skip(1), prefix)
        }
    }
}

/// The lines of `s` wrapped greedily under a prefix of `prefix` columns.
pub open spec fn wrap_of(s: Seq<char>, prefix: nat) -> Seq<Seq<char>> {
    wrap_step(Seq::empty(), Seq::empty(), split_spaces(s), prefix)
}

/// The views of a sequence of owned strings.
pub open spec fn strings_view(v: Seq<String>) -> Seq<Seq<char>> {
    v.map_values(|s: String| s@)
}

pub proof fn lemma_strings_view_push(v: Seq<String>, s: String)
    ensures
        strings_view(v.push(s)) == strings_view(v).push(s@),
{
    assert(strings_view(v.push(s)) =~= strings_view(v).push(s@));
}

/// Splits `s` on single spaces into owned words.
fn split_spaces_exec(s: &str) -> (words: Vec<String>)
    ensures
        strings_view(words@) == split_spaces(s@),
{
    let n = s.unicode_len();
    let mut words: Vec<String> = Vec::new();
    let mut cur = String::new();
    let mut i: usize = 0;
    let ghost mut start: int = 0;
    proof {
        assert(s@.skip(0) =~= s@);
        assert(strings_view(words@) + split_spaces(s@) =~= split_spaces(s@));
        assert(cur@ =~= s@.subrange(0, 0));
    }
    while i < n
        invariant
            i <= n,
            n == s@.len(),
            0 <= start <= i,
            cur@ == s@.subrange(start, i as int),
            forall|k: int| start <= k < i ==> s@[k] != ' ',
            split_spaces(s@) == strings_view(words@) + split_spaces(s@.skip(start)),
        decreases n - i,
    {
        let c = s.get_char(i);
        if c == ' ' {
            let ghost t = s@.skip(start);
            proof {
                assert(forall|k: int| 0 <= k < i - start ==> t[k] == s@[k + start]);
                lemma_first_space_at(t, i - start);
                assert(t.subrange(0, i - start) =~= s@.subrange(start, i as int));
                assert(t.skip(i - start + 1) =~= s@.skip(i + 1));
                lemma_strings_view_push(words@, cur);
            }
            words.push(cur);
            cur = String::new();
            proof {
                start = i as int + 1;
                assert(strings_view(words@) + split_spaces(s@.skip(start)) =~= split_spaces(s@));
                assert(cur@ =~= s@.subrange(start, i as int + 1));
            }
        } else {
            push_char(&mut cur, c);
            proof {
                assert(cur@ =~= s@.subrange(start, i as int + 1));
            }
        }
        i = i + 1;
    }
    proof {
        let t = s@.skip(start);
        assert(forall|k: int| 0 <= k < t.len() ==> t[k] == s@[k + start]);
        lemma_first_space_at(t, n - start);
        assert(t =~= s@.subrange(start, n as int));
        lemma_strings_view_push(words@, cur);
    }
    words.push(cur);
    proof {
        assert(strings_view(words@) =~= split_spaces(s@));
    }
    words
}

/// Wraps documentation text into lines so that a line together with its
/// printing prefix stays within [`MAX_LINE_LENGTH`] columns, splitting only
/// at spaces; a word too long for an entire line is kept whole. The result
/// always holds at least one line.
pub fn wrap_lines(doc: &str, prefix_length: usize) -> (r: Vec<String>)
    ensures
        strings_view(r@) == wrap_of(doc@, prefix_length as nat),
        r@.len() > 0,
{
    let words = split_spaces_exec(doc);
    let mut lines: Vec<String> = Vec::new();
    let mut cur = String::new();
    let mut j: usize = 0;
    proof {
        assert(words@.map_values(|s: String| s@).skip(0) =~= strings_view(words@));
        assert(strings_view(lines@) =~= Seq::<Seq<char>>::empty());
    }
    while j < words.len()
        invariant
            j <= words@.len(),
            strings_view(words@) == split_spaces(doc@),
            wrap_step(
                strings_view(lines@),
                cur@,
                strings_view(words@).skip(j as int),
                prefix_length as nat,
            ) == wrap_of(doc@, prefix_length as nat),
        decreases words@.len() - j,
    {
        let w = &words[j];
        let wlen = w.as_str().unicode_len();
        let cur_len = cur.as_str().unicode_len();
        let fits = if prefix_length > MAX_LINE_LENGTH {
            false
        } else if cur_len > MAX_LINE_LENGTH - prefix_length {
            false
        } else {
            let budget = MAX_LINE_LENGTH - prefix_length - cur_len;
            if cur_len == 0 {
                wlen <= budget
            } else {
                budget > 0 && wlen <= budget - 1
            }
        };
        let ghost old_lines = strings_view(lines@);
        let ghost old_cur = cur@;
        if fits {
            if cur_len == 0 {
                cur = w.clone();
            } else {
                push_char(&mut cur, ' ');
                cur.append(w.as_str());
            }
        } else {
            let flushed = cur;
            proof {
                lemma_strings_view_push(lines@, flushed);
            }
            lines.push(flushed);
            cur = w.clone();
        }
        proof {
            let ws = strings_view(words@).skip(j as int);
            assert(ws[0] == words@[j as int]@);
            assert(ws.skip(1) =~= strings_view(words@).skip(j as int + 1));
        }
        j = j + 1;
    }
    proof {
        assert(strings_view(words@).skip(words@.len() as int)
            =~= Seq::<Seq<char>>::empty());
        lemma_strings_view_push(lines@, cur);
    }
    lines.push(cur);
    lines
}

/// A wrapped line is acceptable when it fits beside its prefix, or consists
/// of a single word (no space), which the wrap never splits.
pub open spec fn line_ok(prefix: nat, l: Seq<char>) -> bool {
    prefix + l.len() <= MAX_LINE_LENGTH || (forall|j: int| 0 <= j < l.len() ==> l[j] != ' ')
}

proof fn lemma_wrap_step_width(
    lines: Seq<Seq<char>>,
    cur: Seq<char>,
    words: Seq<Seq<char>>,
    prefix: nat,
)
    requires
        forall|i: int| 0 <= i < lines.len() ==> line_ok(prefix, lines[i]),
        line_ok(prefix, cur),
        forall|i: int, j: int|
            0 <= i < words.len() && 0 <= j < words[i].len() ==> words[i][j] != ' ',
    ensures
        forall|i: int|
            0 <= i < wrap_step(lines, cur, words, prefix).len() ==> line_ok(
                prefix,
                wrap_step(lines, cur, words, prefix)[i],
            ),
    decreases words.len(),
{
    if words.len() == 0 {
        let r = lines.push(cur);
        assert forall|i: int| 0 <= i < r.len() implies line_ok(prefix, r[i]) by {
            if i < r.len() - 1 {
                assert(r[i] == lines[i]);
            } else {
                assert(r[i] == cur);
            }
        }
        assert(wrap_step(lines, cur, words, prefix) == r);
    } else {
        let w = words[0];
        assert(forall|j: int| 0 <= j < w.len() ==> w[j] != ' ');
        let rest = words.skip(1);
        assert(forall|i: int, j: int|
            0 <= i < rest.len() && 0 <= j < rest[i].len() ==> rest[i][j] != ' ');
        let add_len: int = if cur.len() == 0 {
            w.len() as int
        } else {
            w.len() as int + 1
        };
        if prefix + cur.len() + add_len <= MAX_LINE_LENGTH {
            let joined = if cur.len() == 0 {
                w
            } else {
                cur.push(' ') + w
            };
            assert(line_ok(prefix, joined));
            lemma_wrap_step_width(lines, joined, rest, prefix);
            assert(wrap_step(lines, cur, words, prefix) == wrap_step(lines, joined, rest, prefix));
        } else {
            let flushed = lines.push(cur);
            assert(forall|i: int| 0 <= i < flushed.len() - 1 ==> flushed[i] == lines[i]);
            assert(flushed[flushed.len() - 1] == cur);
            assert(line_ok(prefix, w));
            lemma_wrap_step_width(flushed, w, rest, prefix);
            assert(wrap_step(lines, cur, words, prefix) == wrap_step(flushed, w, rest, prefix));
        }
    }
}

/// No line produced by the wrap overruns the width left beside the prefix,
/// except a line holding a single word that alone exceeds that width: words
/// are never split.
pub proof fn lemma_wrap_width(text: Seq<char>, prefix: nat)
    ensures
        forall|i: int|
            0 <= i < wrap_of(text, prefix).len() ==> line_ok(prefix, wrap_of(text, prefix)[i]),
{
    lemma_split_words_clean(text);
    lemma_wrap_step_width(Seq::empty(), Seq::empty(), split_spaces(text), prefix);
}

/// Replacement is the identity on a text in which the pattern never occurs.
pub proof fn lemma_replace_absent(s: Seq<char>, pat: Seq<char>, rep: Seq<char>)
    requires
        pat.len() > 0,
        forall|p: int|
            0 <= p <= s.len() - pat.len() ==> #[trigger] s.subrange(p, p + pat.len() as int)
                != pat,
    ensures
        replace_of(s, pat, rep) == s,
    decreases s.len(),
{
    if s.len() < pat.len() {
    } else {
        assert(s.subrange(0, 0 + pat.len() as int) != pat);
        assert(s.subrange(0, 0 + pat.len() as int) == s.subrange(0, pat.len() as int));
        let t = s.skip(1);
        assert forall|p: int|
            0 <= p <= t.len() - pat.len() implies #[trigger] t.subrange(p, p + pat.len() as int)
            != pat by {
            assert(t.subrange(p, p + pat.len() as int) =~= s.subrange(
                p + 1,
                p + 1 + pat.len() as int,
            ));
        }
        lemma_replace_absent(t, pat, rep);
        assert(seq![s[0]] + t =~= s);
    }
}

proof fn lemma_pascal_identity(s: Seq<char>, n: int)
    requires
        0 <= n <= s.len(),
        forall|k: int| 0 <= k < s.len() ==> s[k] != '_',
        s.len() > 0 ==> !is_ascii_lower(s[0]),
        forall|k: int| 1 <= k < s.len() ==> !is_ascii_upper(s[k]),
    ensures
        pascal_prefix(s, n) == s.take(n),
    decreases n,
{
    if n <= 0 {
        assert(pascal_prefix(s, n) =~= s.take(n));
    } else {
        lemma_pascal_identity(s, n - 1);
        assert(pascal_char_at(s, n - 1) == seq![s[n - 1]]);
        assert(s.take(n - 1) + seq![s[n - 1]] =~= s.take(n));
    }
}

/// The identifier transform is the identity — and hence idempotent — on a
/// name already in its normal form: no underscore, no lowercase first
/// character, no uppercase character after the first, and not beginning with
/// the token `"Txn"`.
pub proof fn lemma_identifier_idempotent(s: Seq<char>)
    requires
        forall|k: int| 0 <= k < s.len() ==> s[k] != '_',
        s.len() > 0 ==> !is_ascii_lower(s[0]),
        forall|k: int| 1 <= k < s.len() ==> !is_ascii_upper(s[k]),
        !(s.len() >= 3 && s[0] == 'T' && s[1] == 'x' && s[2] == 'n'),
    ensures
        rs_name_of(s) == s,
        rs_name_of(rs_name_of(s)) == rs_name_of(s),
{
    reveal_strlit("Txn");
    lemma_pascal_identity(s, s.len() as int);
    assert(s.take(s.len() as int) =~= s);
    let pat = "Txn"@;
    assert forall|p: int|
        0 <= p <= s.len() - pat.len() implies #[trigger] s.subrange(p, p + pat.len() as int)
        != pat by {
        if s.subrange(p, p + pat.len() as int) == pat {
            assert(s.subrange(p, p + pat.len() as int)[0] == s[p]);
            assert(s.subrange(p, p + pat.len() as int)[1] == s[p + 1]);
            assert(s.subrange(p, p + pat.len() as int)[2] == s[p + 2]);
            assert(s[p] == 'T');
            assert(s[p + 1] == 'x');
            assert(s[p + 2] == 'n');
            assert(is_ascii_upper('T'));
        }
    }
    lemma_replace_absent(s, pat, "Transaction"@);
}

} // verus!
