//! The pure text work behind the tool's terminal output and its editor
//! prompt: filtering commented lines, trimming and joining text, picking
//! an issue title and body out of edited text, and the key that issue
//! tables are sorted by.  Drawing the tables themselves is the
//! surrounding tool's job.

use vstd::prelude::*;

use crate::model::IssueSearchResult;
use crate::model::IssueStatus;

verus! {

/// A line the editor prompt keeps: non-empty and not a comment.
pub open spec fn line_kept(l: String) -> bool {
    l@.len() > 0 && l@[0] != '#'
}

/// The lines that remain after dropping comments and empty lines.
pub open spec fn kept_lines(ls: Seq<String>) -> Seq<String>
    decreases ls,
{
    if ls.len() == 0 {
        Seq::empty()
    } else if line_kept(ls[0]) {
        seq![ls[0]] + kept_lines(ls.drop_first())
    } else {
        kept_lines(ls.drop_first())
    }
}

proof fn lemma_kept_lines_push(ls: Seq<String>, x: String)
    ensures
        kept_lines(ls.push(x)) == (if line_kept(x) {
            kept_lines(ls).push(x)
        } else {
            kept_lines(ls)
        }),
    decreases ls,
{
    if ls.len() == 0 {
        assert(ls.push(x)[0] == x);
        assert(ls.push(x).drop_first() =~= ls);
        if line_kept(x) {
            assert(kept_lines(ls.push(x)) =~= kept_lines(ls).push(x));
        }
    } else {
        assert(ls.push(x)[0] == ls[0]);
        assert(ls.push(x).drop_first() =~= ls.drop_first().push(x));
        lemma_kept_lines_push(ls.drop_first(), x);
        if line_kept(x) {
            assert(kept_lines(ls.push(x)) =~= kept_lines(ls).push(x));
        }
    }
}

/// Removes every line that is empty or starts with a `#`.
pub fn remove_commented_lines(lines: Vec<String>) -> (r: Vec<String>)
    ensures
        r@ == kept_lines(lines@),
{
    let mut out: Vec<String> = Vec::new();
    let mut i: usize = 0;
    proof {
        assert(lines@.take(0) =~= Seq::<String>::empty());
    }
    while i < lines.len()
        invariant
            i <= lines@.len(),
            out@ == kept_lines(lines@.take(i as int)),
        decreases lines@.len() - i,
    {
        let line = &lines[i];
        let keep = line.unicode_len() > 0 && !(line.get_char(0) == '#');
        proof {
            lemma_kept_lines_push(lines@.take(i as int), lines@[i as int]);
            assert(lines@.take(i as int).push(lines@[i as int]) =~= lines@.take(i as int + 1));
        }
        if keep {
            out.push(line.clone());
        }
        i += 1;
    }
    proof {
        assert(lines@.take(lines@.len() as int) =~= lines@);
    }
    out
}

/// A whitespace character, as text trimming understands it.
pub open spec fn is_space_char(c: char) -> bool {
    ||| c == '\u{0009}'
    ||| c == '\u{000A}'
    ||| c == '\u{000B}'
    ||| c == '\u{000C}'
    ||| c == '\u{000D}'
    ||| c == ' '
    ||| c == '\u{0085}'
    ||| c == '\u{00A0}'
    ||| c == '\u{1680}'
    ||| ('\u{2000}' as u32 <= c as u32 && c as u32 <= '\u{200A}' as u32)
    ||| c == '\u{2028}'
    ||| c == '\u{2029}'
    ||| c == '\u{202F}'
    ||| c == '\u{205F}'
    ||| c == '\u{3000}'
}

fn is_space(c: char) -> (r: bool)
    ensures
        r == is_space_char(c),
{
    c == '\u{0009}' || c == '\u{000A}' || c == '\u{000B}' || c == '\u{000C}' || c == '\u{000D}'
        || c == ' ' || c == '\u{0085}' || c == '\u{00A0}' || c == '\u{1680}' || ((c as u32)
        >= ('\u{2000}' as u32) && (c as u32) <= ('\u{200A}' as u32)) || c == '\u{2028}' || c
        == '\u{2029}' || c == '\u{202F}' || c == '\u{205F}' || c == '\u{3000}'
}

/// How many whitespace characters the text starts with.
pub open spec fn trim_start_count(s: Seq<char>) -> int
    decreases s,
{
    if s.len() == 0 {
        0
    } else if is_space_char(s[0]) {
        1 + trim_start_count(s.drop_first())
    } else {
        0
    }
}

/// How many whitespace characters the text ends with.
pub open spec fn trim_end_count(s: Seq<char>) -> int
    decreases s,
{
    if s.len() == 0 {
        0
    } else if is_space_char(s[s.len() - 1]) {
        1 + trim_end_count(s.drop_last())
    } else {
        0
    }
}

/// The text with leading and trailing whitespace removed.
pub open spec fn trimmed(s: Seq<char>) -> Seq<char> {
    if trim_start_count(s) == s.len() {
        Seq::empty()
    } else {
        s.subrange(trim_start_count(s), s.len() - trim_end_count(s))
    }
}

proof fn lemma_trim_start(s: Seq<char>)
    ensures
        0 <= trim_start_count(s) <= s.len(),
        forall|i: int| 0 <= i < trim_start_count(s) ==> is_space_char(#[trigger] s[i]),
        trim_start_count(s) < s.len() ==> !is_space_char(s[trim_start_count(s)]),
    decreases s,
{
    if s.len() > 0 && is_space_char(s[0]) {
        lemma_trim_start(s.drop_first());
        assert forall|i: int| 0 <= i < trim_start_count(s) implies is_space_char(
            #[trigger] s[i],
        ) by {
            if i > 0 {
                assert(s.drop_first()[i - 1] == s[i]);
            }
        }
    }
}

proof fn lemma_trim_end(s: Seq<char>)
    ensures
        0 <= trim_end_count(s) <= s.len(),
        forall|i: int| s.len() - trim_end_count(s) <= i < s.len() ==> is_space_char(
            #[trigger] s[i],
        ),
        trim_end_count(s) < s.len() ==> !is_space_char(s[s.len() - trim_end_count(s) - 1]),
    decreases s,
{
    if s.len() > 0 && is_space_char(s[s.len() - 1]) {
        lemma_trim_end(s.drop_last());
        assert forall|i: int| s.len() - trim_end_count(s) <= i < s.len() implies is_space_char(
            #[trigger] s[i],
        ) by {
            if i < s.len() - 1 {
                assert(s.drop_last()[i] == s[i]);
            }
        }
    }
}

/// The text with leading and trailing whitespace removed.
pub fn trim(s: &str) -> (r: String)
    ensures
        r@ == trimmed(s@),
{
    proof {
        lemma_trim_start(s@);
        lemma_trim_end(s@);
    }
    let n = s.unicode_len();
    let mut a: usize = 0;
    while a < n && is_space(s.get_char(a))
        invariant
            n == s@.len(),
            a <= n,
            forall|i: int| 0 <= i < a ==> is_space_char(#[trigger] s@[i]),
        decreases n - a,
    {
        a += 1;
    }
    if a == n {
        proof {
            if trim_start_count(s@) < s@.len() {
                assert(is_space_char(s@[trim_start_count(s@)]));
            }
        }
        return String::new();
    }
    proof {
        // The scan stopped at the first non-space character, which pins
        // it to the spec's count.
        if trim_start_count(s@) < a {
            assert(is_space_char(s@[trim_start_count(s@)]));
        }
        if a < trim_start_count(s@) {
            assert(is_space_char(s@[a as int]));
        }
        assert(a == trim_start_count(s@));
    }
    let mut b: usize = n;
    while b > a && is_space(s.get_char(b - 1))
        invariant
            n == s@.len(),
            a <= b <= n,
            a < n,
            !is_space_char(s@[a as int]),
            forall|i: int| b <= i < n ==> is_space_char(#[trigger] s@[i]),
        decreases b,
    {
        b -= 1;
    }
    proof {
        assert(!is_space_char(s@[a as int]));
        assert(b > a);
        let t = trim_end_count(s@);
        if n - b < t {
            assert(!is_space_char(s@[b - 1]));
            assert(n - t <= b - 1 < n ==> is_space_char(s@[b - 1]));
            assert(b - 1 < n - t);
            assert(t < s@.len());
            assert(s@.len() - t - 1 >= b - 1);
            assert(s@.len() - t - 1 >= b);
            assert(is_space_char(s@[s@.len() - t - 1]));
        }
        if t < n - b {
            assert(is_space_char(s@[b as int]));
            assert(t < s@.len());
            assert(s@.len() - t - 1 >= b);
            assert(is_space_char(s@[s@.len() - t - 1]));
        }
        assert(n - b == t);
    }
    s.substring_char(a, b).to_owned()
}

/// The lines joined with single newlines.
pub open spec fn joined_lines(ls: Seq<String>) -> Seq<char>
    decreases ls,
{
    if ls.len() == 0 {
        Seq::empty()
    } else if ls.len() == 1 {
        ls[0]@
    } else {
        ls[0]@ + "\n"@ + joined_lines(ls.drop_first())
    }
}

proof fn lemma_joined_lines_push(ls: Seq<String>, x: String)
    ensures
        joined_lines(ls.push(x)) == (if ls.len() == 0 {
            x@
        } else {
            joined_lines(ls) + "\n"@ + x@
        }),
    decreases ls,
{
    if ls.len() == 0 {
        assert(ls.push(x)[0] == x);
    } else {
        assert(ls.push(x)[0] == ls[0]);
        assert(ls.push(x).drop_first() =~= ls.drop_first().push(x));
        lemma_joined_lines_push(ls.drop_first(), x);
        if ls.len() == 1 {
            assert(joined_lines(ls.push(x)) =~= joined_lines(ls) + "\n"@ + x@);
        } else {
            assert(joined_lines(ls.push(x)) =~= joined_lines(ls) + "\n"@ + x@);
        }
    }
}

/// Joins the lines from the given position on with newlines.
fn join_lines_from(lines: &Vec<String>, from: usize) -> (r: String)
    requires
        from <= lines@.len(),
    ensures
        r@ == joined_lines(lines@.subrange(from as int, lines@.len() as int)),
{
    let mut acc = String::new();
    let mut i: usize = from;
    proof {
        assert(lines@.subrange(from as int, from as int) =~= Seq::<String>::empty());
    }
    while i < lines.len()
        invariant
            from <= i <= lines@.len(),
            acc@ == joined_lines(lines@.subrange(from as int, i as int)),
        decreases lines@.len() - i,
    {
        proof {
            lemma_joined_lines_push(
                lines@.subrange(from as int, i as int),
                lines@[i as int],
            );
            assert(lines@.subrange(from as int, i as int).push(lines@[i as int])
                =~= lines@.subrange(from as int, i as int + 1));
        }
        if i > from {
            acc.append("\n");
        }
        acc.append(lines[i].as_str());
        i += 1;
    }
    acc
}

/// The text split at newlines: one piece per line, keeping empty
/// pieces, so a text without newlines is one piece.
pub open spec fn split_nl(s: Seq<char>) -> Seq<Seq<char>>
    decreases s.len(),
{
    let k = first_nl_from(s, 0);
    if 0 <= k < s.len() {
        seq![s.subrange(0, k)] + split_nl(s.subrange(k + 1, s.len() as int))
    } else {
        seq![s]
    }
}

/// The views of a list of lines.
pub open spec fn lines_views(ls: Seq<String>) -> Seq<Seq<char>> {
    Seq::new(ls.len(), |i: int| ls[i]@)
}

/// Splits the text at newlines.
pub fn split_lines(s: &str) -> (r: Vec<String>)
    ensures
        lines_views(r@) == split_nl(s@),
{
    let n = s.unicode_len();
    let mut out: Vec<String> = Vec::new();
    let mut start: usize = 0;
    let mut e: usize = 0;
    proof {
        assert(s@.subrange(0, n as int) =~= s@);
        assert(lines_views(out@) + split_nl(s@) =~= split_nl(s@));
    }
    while e < n
        invariant
            n == s@.len(),
            start <= e <= n,
            forall|i: int| start <= i < e ==> s@[i] != '\n',
            split_nl(s@) == lines_views(out@) + split_nl(s@.subrange(start as int, n as int)),
        decreases n - e,
    {
        if s.get_char(e) == '\n' {
            let piece = s.substring_char(start, e).to_owned();
            proof {
                let suffix = s@.subrange(start as int, n as int);
                lemma_first_nl_from(suffix, 0);
                let f = first_nl_from(suffix, 0);
                assert forall|j: int| 0 <= j < e - start implies suffix[j] != '\n' by {
                    assert(suffix[j] == s@[start + j]);
                }
                assert(suffix[e - start] == s@[e as int]);
                if f < e - start {
                    assert(suffix[f] == '\n');
                }
                if e - start < f {
                    assert(suffix[e - start] != '\n');
                }
                assert(f == e - start);
                assert(suffix.subrange(0, f) =~= s@.subrange(start as int, e as int));
                assert(suffix.subrange(f + 1, suffix.len() as int) =~= s@.subrange(
                    e as int + 1,
                    n as int,
                ));
                assert(split_nl(suffix) == seq![s@.subrange(start as int, e as int)] + split_nl(
                    s@.subrange(e as int + 1, n as int),
                ));
                assert(piece@ == s@.subrange(start as int, e as int));
                assert(lines_views(out@.push(piece)) =~= lines_views(out@) + seq![piece@]);
                assert(lines_views(out@.push(piece)) + split_nl(
                    s@.subrange(e as int + 1, n as int),
                ) =~= lines_views(out@) + split_nl(suffix));
            }
            out.push(piece);
            start = e + 1;
        }
        e += 1;
    }
    let piece = s.substring_char(start, n).to_owned();
    proof {
        let suffix = s@.subrange(start as int, n as int);
        lemma_first_nl_from(suffix, 0);
        let f = first_nl_from(suffix, 0);
        if f < suffix.len() {
            assert(suffix[f] == '\n');
            assert(suffix[f] == s@[start + f]);
        }
        assert(split_nl(suffix) == seq![suffix]);
        assert(piece@ == suffix);
        assert(lines_views(out@.push(piece)) =~= lines_views(out@) + seq![suffix]);
    }
    out.push(piece);
    out
}

/// What the edited text means: nothing when no line survives the
/// comment filter or the first surviving line is empty; otherwise the
/// trimmed first line as the title and the remaining lines, joined and
/// trimmed, as the body.
pub open spec fn title_body(ls: Seq<String>) -> Option<(Seq<char>, Seq<char>)> {
    let kept = kept_lines(ls);
    if kept.len() == 0 {
        None
    } else if kept[0]@.len() == 0 {
        None
    } else {
        Some((trimmed(kept[0]@), trimmed(joined_lines(kept.drop_first()))))
    }
}

/// Picks an issue title and body out of the lines of an edited text.
pub fn editor_title_body(lines: Vec<String>) -> (r: Option<(String, String)>)
    ensures
        r is Some <==> title_body(lines@) is Some,
        r matches Some(p) ==> title_body(lines@) matches Some(q) && p.0@ == q.0 && p.1@ == q.1,
{
    let kept = remove_commented_lines(lines);
    if kept.len() == 0 {
        return None;
    }
    if kept[0].as_str().unicode_len() == 0 {
        return None;
    }
    let title = trim(kept[0].as_str());
    let rest = join_lines_from(&kept, 1);
    let body = trim(rest.as_str());
    proof {
        assert(kept@.subrange(1, kept@.len() as int) =~= kept_lines(lines@).drop_first());
    }
    Some((title, body))
}

/// The first position at or after `i` holding a newline, or the text's
/// length when there is none.
pub open spec fn first_nl_from(s: Seq<char>, i: int) -> int
    recommends
        0 <= i <= s.len(),
    decreases s.len() - i,
        when 0 <= i <= s.len()
{
    if i >= s.len() {
        i
    } else if s[i] == '\n' {
        i
    } else {
        first_nl_from(s, i + 1)
    }
}

proof fn lemma_first_nl_from(s: Seq<char>, i: int)
    requires
        0 <= i <= s.len(),
    ensures
        i <= first_nl_from(s, i) <= s.len(),
        forall|j: int| i <= j < first_nl_from(s, i) ==> s[j] != '\n',
        first_nl_from(s, i) < s.len() ==> s[first_nl_from(s, i)] == '\n',
    decreases s.len() - i,
{
    if i < s.len() && s[i] != '\n' {
        lemma_first_nl_from(s, i + 1);
    }
}

/// The first position at or after `i` holding a slash, or the text's
/// length when there is none.
pub open spec fn first_slash_from(s: Seq<char>, i: int) -> int
    recommends
        0 <= i <= s.len(),
    decreases s.len() - i,
        when 0 <= i <= s.len()
{
    if i >= s.len() {
        i
    } else if s[i] == '/' {
        i
    } else {
        first_slash_from(s, i + 1)
    }
}

proof fn lemma_first_slash_from(s: Seq<char>, i: int)
    requires
        0 <= i <= s.len(),
    ensures
        i <= first_slash_from(s, i) <= s.len(),
        forall|j: int| i <= j < first_slash_from(s, i) ==> s[j] != '/',
        first_slash_from(s, i) < s.len() ==> s[first_slash_from(s, i)] == '/',
    decreases s.len() - i,
{
    if i < s.len() && s[i] != '/' {
        lemma_first_slash_from(s, i + 1);
    }
}

/// The position right after the run of digits starting at `i`.
pub open spec fn digit_run_end_from(s: Seq<char>, i: int) -> int
    recommends
        0 <= i <= s.len(),
    decreases s.len() - i,
        when 0 <= i <= s.len()
{
    if i >= s.len() {
        i
    } else if crate::util::is_digit(s[i]) {
        digit_run_end_from(s, i + 1)
    } else {
        i
    }
}

proof fn lemma_digit_run_end_from(s: Seq<char>, i: int)
    requires
        0 <= i <= s.len(),
    ensures
        i <= digit_run_end_from(s, i) <= s.len(),
        forall|j: int| i <= j < digit_run_end_from(s, i) ==> crate::util::is_digit(#[trigger] s[j]),
        digit_run_end_from(s, i) < s.len() ==> !crate::util::is_digit(s[digit_run_end_from(s, i)]),
    decreases s.len() - i,
{
    if i < s.len() && crate::util::is_digit(s[i]) {
        lemma_digit_run_end_from(s, i + 1);
        assert forall|j: int| i <= j < digit_run_end_from(s, i) implies crate::util::is_digit(
            #[trigger] s[j],
        ) by {
        }
    }
}

/// A bracketed issue-key prefix standing at the front of a pull
/// request's name: `[`, uppercase letters, `-`, digits, `]`, one
/// whitespace character.
pub open spec fn pr_prefix_at(s: Seq<char>, a: int, b: int) -> bool {
    &&& 1 < a
    &&& a + 1 < b
    &&& b + 1 < s.len()
    &&& s[0] == '['
    &&& (forall|i: int| 1 <= i < a ==> crate::util::is_upper(#[trigger] s[i]))
    &&& s[a] == '-'
    &&& (forall|j: int| a < j < b ==> crate::util::is_digit(#[trigger] s[j]))
    &&& s[b] == ']'
    &&& is_space_char(s[b + 1])
}

pub open spec fn has_pr_prefix(s: Seq<char>) -> bool {
    exists|ab: (int, int)| pr_prefix_at(s, ab.0, ab.1)
}

/// Where a pull request's displayed name starts: right after the
/// bracketed issue-key prefix when there is one, else at the front.
pub open spec fn pr_name_start(s: Seq<char>) -> int {
    if has_pr_prefix(s) {
        (choose|ab: (int, int)| pr_prefix_at(s, ab.0, ab.1)).1 + 2
    } else {
        0
    }
}

/// A pull request's displayed name: the name with its bracketed
/// issue-key prefix stripped, up to the first line break.
pub open spec fn pr_title_spec(s: Seq<char>) -> Seq<char> {
    s.subrange(pr_name_start(s), first_nl_from(s, pr_name_start(s)))
}

proof fn lemma_pr_prefix_unique(s: Seq<char>, a1: int, b1: int, a2: int, b2: int)
    requires
        pr_prefix_at(s, a1, b1),
        pr_prefix_at(s, a2, b2),
    ensures
        a1 == a2,
        b1 == b2,
{
    assert(!crate::util::is_upper('-'));
    assert(!crate::util::is_digit(']'));
    if a1 < a2 {
        assert(crate::util::is_upper(s[a1]));
    }
    if a2 < a1 {
        assert(crate::util::is_upper(s[a2]));
    }
    if b1 < b2 {
        assert(crate::util::is_digit(s[b1]));
    }
    if b2 < b1 {
        assert(crate::util::is_digit(s[b2]));
    }
}

/// The displayed name of a pull request: its bracketed issue-key prefix
/// stripped, and only the first line kept.
pub fn pr_title(name: &str) -> (r: String)
    ensures
        r@ == pr_title_spec(name@),
{
    let n = name.unicode_len();
    let mut start: usize = 0;
    if n > 0 && name.get_char(0) == '[' {
        let mut a: usize = 1;
        while a < n && crate::util::upper_at(name, a)
            invariant
                n == name@.len(),
                1 <= a <= n,
                n > 0,
                name@[0] == '[',
                forall|i: int| 1 <= i < a ==> crate::util::is_upper(#[trigger] name@[i]),
            decreases n - a,
        {
            a += 1;
        }
        if a > 1 && a < n && name.get_char(a) == '-' {
            let mut b: usize = a + 1;
            while b < n && crate::util::digit_at(name, b)
                invariant
                    n == name@.len(),
                    a + 1 <= b <= n,
                    a < n,
                    forall|j: int| a < j < b ==> crate::util::is_digit(#[trigger] name@[j]),
                decreases n - b,
            {
                b += 1;
            }
            if b > a + 1 && b < n && name.get_char(b) == ']' && n - b > 1 && is_space(
                name.get_char(b + 1),
            ) {
                start = b + 2;
                proof {
                    assert(pr_prefix_at(name@, a as int, b as int));
                    assert(has_pr_prefix(name@)) by {
                        assert(pr_prefix_at(name@, ((a as int, b as int)).0, ((
                        a as int,
                        b as int,
                        )).1));
                    }
                    let ab = choose|ab: (int, int)| pr_prefix_at(name@, ab.0, ab.1);
                    lemma_pr_prefix_unique(name@, ab.0, ab.1, a as int, b as int);
                }
            } else {
                proof {
                    if has_pr_prefix(name@) {
                        let ab = choose|ab: (int, int)| pr_prefix_at(name@, ab.0, ab.1);
                        if ab.0 < a {
                            assert(crate::util::is_upper(name@[ab.0]));
                        }
                        if a < ab.0 {
                            assert(crate::util::is_upper(name@[a as int]));
                        }
                        assert(ab.0 == a);
                        if ab.1 < b {
                            assert(crate::util::is_digit(name@[ab.1]));
                        }
                        if b < ab.1 {
                            assert(crate::util::is_digit(name@[b as int]));
                        }
                        assert(ab.1 == b);
                        assert(false);
                    }
                }
            }
        } else {
            proof {
                if has_pr_prefix(name@) {
                    let ab = choose|ab: (int, int)| pr_prefix_at(name@, ab.0, ab.1);
                    if ab.0 < a {
                        assert(crate::util::is_upper(name@[ab.0]));
                    }
                    if a < ab.0 {
                        assert(crate::util::is_upper(name@[a as int]));
                    }
                    assert(ab.0 == a);
                    assert(false);
                }
            }
        }
    } else {
        proof {
            if has_pr_prefix(name@) {
                let ab = choose|ab: (int, int)| pr_prefix_at(name@, ab.0, ab.1);
                assert(name@[0] == '[');
            }
        }
    }
    let mut e: usize = start;
    while e < n && !(name.get_char(e) == '\n')
        invariant
            n == name@.len(),
            start <= e <= n,
            forall|i: int| start <= i < e ==> name@[i] != '\n',
        decreases n - e,
    {
        e += 1;
    }
    proof {
        lemma_first_nl_from(name@, start as int);
        let f = first_nl_from(name@, start as int);
        if f < e {
            assert(name@[f] == '\n');
        }
        if e < f {
            assert(name@[e as int] != '\n');
        }
        assert(e == f);
    }
    name.substring_char(start, e).to_owned()
}

/// Whether the pull request URL pattern matches at position `p`: the
/// host, two path segments, a `pull` segment, and at least one digit.
pub open spec fn pr_url_match_at(s: Seq<char>, p: int) -> bool {
    let q1 = first_slash_from(s, p + 11);
    let q2 = first_slash_from(s, q1 + 1);
    &&& 0 <= p
    &&& p + 11 <= s.len()
    &&& s.subrange(p, p + 11) == "github.com/"@
    &&& q1 < s.len()
    &&& q2 + 6 < s.len()
    &&& s.subrange(q2 + 1, q2 + 6) == "pull/"@
    &&& crate::util::is_digit(s[q2 + 6])
}

/// The first position at or after `p` where the pull request URL
/// pattern matches, or the text's length when it never does.
pub open spec fn first_pr_url_match(s: Seq<char>, p: int) -> int
    recommends
        0 <= p <= s.len(),
    decreases s.len() - p,
        when 0 <= p <= s.len()
{
    if p >= s.len() {
        p
    } else if pr_url_match_at(s, p) {
        p
    } else {
        first_pr_url_match(s, p + 1)
    }
}

proof fn lemma_first_pr_url_match(s: Seq<char>, p: int)
    requires
        0 <= p <= s.len(),
    ensures
        p <= first_pr_url_match(s, p) <= s.len(),
        forall|j: int| p <= j < first_pr_url_match(s, p) ==> !pr_url_match_at(s, j),
        first_pr_url_match(s, p) < s.len() ==> pr_url_match_at(s, first_pr_url_match(s, p)),
    decreases s.len() - p,
{
    if p < s.len() && !pr_url_match_at(s, p) {
        lemma_first_pr_url_match(s, p + 1);
    }
}

/// The pull request number in a pull request URL: the digits after the
/// first `pull` path segment of the first matching position, or nothing
/// when the URL holds no such segment.
pub open spec fn pr_number_spec(s: Seq<char>) -> Option<Seq<char>> {
    let p = first_pr_url_match(s, 0);
    if p < s.len() {
        let q1 = first_slash_from(s, p + 11);
        let q2 = first_slash_from(s, q1 + 1);
        Some(s.subrange(q2 + 6, digit_run_end_from(s, q2 + 6)))
    } else {
        None
    }
}

/// Checks the pull request URL pattern at one position, handing back
/// where the digits start.
fn pr_url_match_here(url: &str, p: usize, n: usize) -> (r: Option<usize>)
    requires
        n == url@.len(),
        p < n,
    ensures
        r is Some <==> pr_url_match_at(url@, p as int),
        r matches Some(d) ==> d == first_slash_from(
            url@,
            first_slash_from(url@, p + 11) + 1,
        ) + 6 && d < n,
{
    proof {
        reveal_strlit("github.com/");
    }
    let host = "github.com/";
    if n - p < 11 {
        return None;
    }
    let mut i: usize = 0;
    while i < 11 && url.get_char(p + i) == host.get_char(i)
        invariant
            n == url@.len(),
            p + 11 <= n,
            i <= 11,
            host@ == "github.com/"@,
            host@.len() == 11,
            forall|k: int| 0 <= k < i ==> url@[p + k] == host@[k],
        decreases 11 - i,
    {
        i += 1;
    }
    if i < 11 {
        proof {
            if url@.subrange(p as int, p + 11) == "github.com/"@ {
                assert(url@.subrange(p as int, p + 11)[i as int] == url@[p + i]);
            }
        }
        return None;
    }
    proof {
        assert(url@.subrange(p as int, p + 11) =~= "github.com/"@);
        lemma_first_slash_from(url@, p + 11);
    }
    let mut q1: usize = p + 11;
    while q1 < n && !(url.get_char(q1) == '/')
        invariant
            n == url@.len(),
            p + 11 <= q1 <= n,
            forall|k: int| p + 11 <= k < q1 ==> url@[k] != '/',
        decreases n - q1,
    {
        q1 += 1;
    }
    proof {
        let f = first_slash_from(url@, p + 11);
        if f < q1 {
            assert(url@[f] == '/');
        }
        if q1 < f {
            assert(url@[q1 as int] != '/');
        }
        assert(q1 == f);
    }
    if q1 == n {
        return None;
    }
    proof {
        lemma_first_slash_from(url@, q1 + 1);
    }
    let mut q2: usize = q1 + 1;
    while q2 < n && !(url.get_char(q2) == '/')
        invariant
            n == url@.len(),
            q1 + 1 <= q2 <= n,
            forall|k: int| q1 + 1 <= k < q2 ==> url@[k] != '/',
        decreases n - q2,
    {
        q2 += 1;
    }
    proof {
        let f = first_slash_from(url@, q1 + 1);
        if f < q2 {
            assert(url@[f] == '/');
        }
        if q2 < f {
            assert(url@[q2 as int] != '/');
        }
        assert(q2 == f);
    }
    if n - q2 <= 6 {
        return None;
    }
    proof {
        reveal_strlit("pull/");
    }
    let seg = "pull/";
    let mut i2: usize = 0;
    while i2 < 5 && url.get_char(q2 + 1 + i2) == seg.get_char(i2)
        invariant
            n == url@.len(),
            q2 + 6 < n,
            i2 <= 5,
            seg@ == "pull/"@,
            seg@.len() == 5,
            forall|k: int| 0 <= k < i2 ==> url@[q2 + 1 + k] == seg@[k],
        decreases 5 - i2,
    {
        i2 += 1;
    }
    if i2 < 5 {
        proof {
            if url@.subrange(q2 + 1, q2 + 6) == "pull/"@ {
                assert(url@.subrange(q2 + 1, q2 + 6)[i2 as int] == url@[q2 + 1 + i2]);
            }
        }
        return None;
    }
    proof {
        assert(url@.subrange(q2 + 1, q2 + 6) =~= "pull/"@);
    }
    if crate::util::digit_at(url, q2 + 6) {
        Some(q2 + 6)
    } else {
        None
    }
}

/// The pull request number in a pull request URL, or nothing when the
/// URL holds no `pull` segment.
pub fn pr_number(url: &str) -> (r: Option<String>)
    ensures
        r is Some <==> pr_number_spec(url@) is Some,
        r matches Some(num) ==> pr_number_spec(url@) matches Some(q) && num@ == q,
{
    let n = url.unicode_len();
    let mut p: usize = 0;
    while p < n
        invariant
            n == url@.len(),
            p <= n,
            forall|j: int| 0 <= j < p ==> !pr_url_match_at(url@, j),
        decreases n - p,
    {
        match pr_url_match_here(url, p, n) {
            Some(d) => {
                proof {
                    lemma_first_pr_url_match(url@, 0);
                    let f = first_pr_url_match(url@, 0);
                    if f < p {
                        assert(!pr_url_match_at(url@, f));
                    }
                    if p < f {
                        assert(!pr_url_match_at(url@, p as int));
                    }
                    assert(f == p);
                    lemma_digit_run_end_from(url@, d as int);
                }
                let mut e: usize = d;
                while e < n && crate::util::digit_at(url, e)
                    invariant
                        n == url@.len(),
                        d <= e <= n,
                        forall|k: int| d <= k < e ==> crate::util::is_digit(#[trigger] url@[k]),
                    decreases n - e,
                {
                    e += 1;
                }
                proof {
                    let f = digit_run_end_from(url@, d as int);
                    if f < e {
                        assert(crate::util::is_digit(url@[f]));
                    }
                    if e < f {
                        assert(crate::util::is_digit(url@[e as int]));
                    }
                    assert(e == f);
                }
                return Some(url.substring_char(d, e).to_owned());
            },
            None => {},
        }
        p += 1;
    }
    proof {
        lemma_first_pr_url_match(url@, 0);
        let f = first_pr_url_match(url@, 0);
        if f < n {
            assert(!pr_url_match_at(url@, f));
        }
    }
    None
}

/// The token that stands for an issue's status in a table sort key,
/// mirroring how the status is printed for sorting.
pub open spec fn status_sort_token(s: Option<IssueStatus>) -> Seq<char> {
    match s {
        None => "None"@,
        Some(IssueStatus::ToDo) => "Some(ToDo)"@,
        Some(IssueStatus::Logged) => "Some(Logged)"@,
        Some(IssueStatus::InProgress) => "Some(InProgress)"@,
        Some(IssueStatus::SupportTriaged) => "Some(SupportTriaged)"@,
        Some(IssueStatus::InReview) => "Some(InReview)"@,
        Some(IssueStatus::Closed) => "Some(Closed)"@,
        Some(IssueStatus::Done) => "Some(Done)"@,
    }
}

fn status_token(s: &Option<IssueStatus>) -> (r: String)
    ensures
        r@ == status_sort_token(*s),
{
    match s {
        None => String::from_str("None"),
        Some(IssueStatus::ToDo) => String::from_str("Some(ToDo)"),
        Some(IssueStatus::Logged) => String::from_str("Some(Logged)"),
        Some(IssueStatus::InProgress) => String::from_str("Some(InProgress)"),
        Some(IssueStatus::SupportTriaged) => String::from_str("Some(SupportTriaged)"),
        Some(IssueStatus::InReview) => String::from_str("Some(InReview)"),
        Some(IssueStatus::Closed) => String::from_str("Some(Closed)"),
        Some(IssueStatus::Done) => String::from_str("Some(Done)"),
    }
}

/// The key an issue row is sorted by: its parent's status and key when
/// it has a parent, then its own status, then its key.
pub open spec fn issue_sort_key_spec(issue: IssueSearchResult) -> Seq<char> {
    (match issue.fields.parent {
        Some(p) => status_sort_token((p.fields->Some_0).status) + p.key@,
        None => Seq::empty(),
    }) + status_sort_token(issue.fields.status) + issue.key@
}

/// The key an issue row is sorted by.  An issue with a parent must
/// carry the parent's fields.
pub fn issue_sort_key(issue: &IssueSearchResult) -> (r: String)
    requires
        issue.fields.parent matches Some(p) ==> p.fields is Some,
    ensures
        r@ == issue_sort_key_spec(*issue),
{
    let mut key = match &issue.fields.parent {
        Some(p) => {
            let f = match &p.fields {
                Some(f) => f,
                None => {
                    proof {
                        assert(false);
                    }
                    unreached()
                },
            };
            let mut k = status_token(&f.status);
            k.append(p.key.as_str());
            k
        },
        None => String::new(),
    };
    let own = status_token(&issue.fields.status);
    key.append(own.as_str());
    key.append(issue.key.as_str());
    key
}

} // verus!
