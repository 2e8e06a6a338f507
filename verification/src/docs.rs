//! The documentation deriver: splits leading documentation lines once on a
//! `Returns:` marker line into a description and a return description.

use vstd::prelude::*;

use crate::error::SpecError;
use crate::strutil::push_char;

verus! {

use vstd::string::StrSliceExecFns;

/// Whitespace stripped from the ends of derived descriptions.
pub open spec fn spec_is_ws(c: char) -> bool {
    c == ' ' || c == '\t' || c == '\n' || c == '\r'
}

fn is_ws(c: char) -> (r: bool)
    ensures
        r == spec_is_ws(c),
{
    c == ' ' || c == '\t' || c == '\n' || c == '\r'
}

/// The text with leading whitespace removed.
pub open spec fn spec_trim_start(s: Seq<char>) -> Seq<char>
    decreases s.len(),
{
    if s.len() == 0 {
        s
    } else if spec_is_ws(s[0]) {
        spec_trim_start(s.drop_first())
    } else {
        s
    }
}

/// The text with trailing whitespace removed.
pub open spec fn spec_trim_end(s: Seq<char>) -> Seq<char>
    decreases s.len(),
{
    if s.len() == 0 {
        s
    } else if spec_is_ws(s[s.len() - 1]) {
        spec_trim_end(s.drop_last())
    } else {
        s
    }
}

/// The text with whitespace removed from both ends.
pub open spec fn spec_trim(s: Seq<char>) -> Seq<char> {
    spec_trim_end(spec_trim_start(s))
}

proof fn lemma_trim_start_skip(s: Seq<char>, a: int)
    requires
        0 <= a <= s.len(),
        forall|k: int| 0 <= k < a ==> spec_is_ws(#[trigger] s[k]),
        a == s.len() || !spec_is_ws(s[a]),
    ensures
        spec_trim_start(s) == s.skip(a),
    decreases a,
{
    if a == 0 {
        assert(s.skip(0) =~= s);
    } else {
        assert(spec_is_ws(s[0]));
        assert(s.drop_first() =~= s.skip(1));
        lemma_trim_start_skip(s.skip(1), a - 1);
        assert(s.skip(1).skip(a - 1) =~= s.skip(a));
    }
}

proof fn lemma_trim_end_take(s: Seq<char>, b: int)
    requires
        0 <= b <= s.len(),
        forall|k: int| b <= k < s.len() ==> spec_is_ws(#[trigger] s[k]),
        b == 0 || !spec_is_ws(s[b - 1]),
    ensures
        spec_trim_end(s) == s.take(b),
    decreases s.len(),
{
    if b == s.len() {
        assert(s.take(b) =~= s);
        if s.len() > 0 {
            assert(!spec_is_ws(s[s.len() - 1]));
        }
    } else {
        assert(spec_is_ws(s[s.len() - 1]));
        assert(s.drop_last() =~= s.take(s.len() - 1));
        lemma_trim_end_take(s.take(s.len() - 1), b);
        assert(s.take(s.len() - 1).take(b) =~= s.take(b));
    }
}

/// Remove whitespace from both ends of a string.
#[verifier::loop_isolation(false)]
pub fn trim(s: &str) -> (r: String)
    ensures
        r@ == spec_trim(s@),
{
    let len = s.unicode_len();
    let mut a: usize = 0;
    while a < len && is_ws(s.get_char(a))
        invariant
            a <= len,
            len == s@.len(),
            forall|k: int| 0 <= k < a ==> spec_is_ws(#[trigger] s@[k]),
        decreases len - a,
    {
        a += 1;
    }
    proof {
        lemma_trim_start_skip(s@, a as int);
    }
    let mut b: usize = len;
    while b > a && is_ws(s.get_char(b - 1))
        invariant
            a <= b <= len,
            forall|k: int| b <= k < len ==> spec_is_ws(#[trigger] s@[k]),
        decreases b,
    {
        b -= 1;
    }
    let r = s.substring_char(a, b);
    proof {
        let inner = s@.skip(a as int);
        if b == a {
            lemma_trim_end_take(inner, 0);
        } else {
            lemma_trim_end_take(inner, b - a);
        }
        assert(inner.take(b - a) =~= s@.subrange(a as int, b as int));
    }
    r.to_owned()
}

/// The first `n` lines joined with a separator.
pub open spec fn spec_join(lines: Seq<String>, n: int, sep: char) -> Seq<char>
    decreases n,
{
    if n <= 0 {
        Seq::empty()
    } else if n == 1 {
        lines[0]@
    } else {
        spec_join(lines, n - 1, sep) + seq![sep] + lines[n - 1]@
    }
}

/// Join lines `from .. to` with a separator onto the end of `acc`.
#[verifier::loop_isolation(false)]
pub(crate) fn join_onto(acc: &mut String, lines: &Vec<String>, from: usize, to: usize, sep: char)
    requires
        from <= to <= lines@.len(),
    ensures
        final(acc)@ == old(acc)@ + spec_join(
            lines@.subrange(from as int, to as int),
            to - from,
            sep,
        ),
{
    let ghost sub = lines@.subrange(from as int, to as int);
    let mut i: usize = from;
    while i < to
        invariant
            from <= i <= to,
            acc@ == old(acc)@ + spec_join(sub, i - from, sep),
        decreases to - i,
    {
        if i > from {
            push_char(acc, sep);
        }
        acc.append(lines[i].as_str());
        proof {
            assert(sub[i - from] == lines@[i as int]);
        }
        i += 1;
    }
    proof {
        if from == to {
            assert(old(acc)@ + spec_join(sub, 0, sep) =~= old(acc)@);
        }
    }
}

/// Whether a documentation line is the `Returns:` marker line.
pub open spec fn spec_is_marker(line: String) -> bool {
    line@.len() >= 8 && line@.subrange(0, 8) == "Returns:"@
}

/// Check for the `Returns:` marker at the head of a line.
fn is_marker(line: &String) -> (r: bool)
    ensures
        r == spec_is_marker(*line),
{
    let len = line.as_str().unicode_len();
    if len < 8 {
        return false;
    }
    let head = line.as_str().substring_char(0, 8);
    crate::strutil::str_eq(head, "Returns:")
}

/// The split of documentation lines: the description text, and the return
/// description text if a marker line exists.
#[derive(Debug, PartialEq)]
pub struct DocParts {
    /// The trimmed text before the marker line.
    pub description: String,
    /// The trimmed text from after the marker, when a marker line exists.
    pub returns_description: Option<String>,
}

/// Index of the first marker line at or past `from`, if any.
fn find_marker(lines: &Vec<String>, from: usize) -> (r: Option<usize>)
    ensures
        match r {
            Some(m) => {
                &&& from <= m < lines@.len()
                &&& spec_is_marker(lines@[m as int])
                &&& forall|k: int| from <= k < m ==> !spec_is_marker(#[trigger] lines@[k])
            },
            None => forall|k: int|
                from <= k < lines@.len() ==> !spec_is_marker(#[trigger] lines@[k]),
        },
{
    let mut i: usize = from;
    while i < lines.len()
        invariant
            from <= i,
            i <= lines@.len() || from >= lines@.len(),
            forall|k: int| from <= k < i ==> !spec_is_marker(#[trigger] lines@[k]),
        decreases lines@.len() - i,
    {
        if is_marker(&lines[i]) {
            return Some(i);
        }
        i += 1;
    }
    None
}

/// Split documentation lines once on the first `Returns:` marker line.
///
/// The trimmed text before the marker becomes the description; the trimmed
/// text from after the marker becomes the return description. A second
/// marker line is a hard error.
#[verifier::loop_isolation(false)]
pub fn split_doc_comment(lines: &Vec<String>) -> (r: Result<DocParts, SpecError>)
    ensures
        r is Err <==> exists|i: int, j: int|
            0 <= i < j < lines@.len() && spec_is_marker(#[trigger] lines@[i]) && spec_is_marker(
                #[trigger] lines@[j],
            ),
        r matches Err(e) ==> e == SpecError::MultipleReturnsSections,
        r matches Ok(parts) ==> match find_first_marker_spec(lines@) {
            None => {
                &&& parts.description@ == spec_trim(
                    spec_join(
                        lines@.subrange(0, lines@.len() as int),
                        lines@.len() as int,
                        '\n',
                    ),
                )
                &&& parts.returns_description is None
            },
            Some(m) => {
                &&& parts.description@ == spec_trim(spec_join(lines@.subrange(0, m), m, '\n'))
                &&& parts.returns_description matches Some(ret) && ret@ == spec_trim(
                    spec_returns_text(lines@, m),
                )
            },
        },
{
    match find_marker(lines, 0) {
        None => {
            let mut description = String::new();
            join_onto(&mut description, lines, 0, lines.len(), '\n');
            let description = trim(description.as_str());
            proof {
                assert(Seq::<char>::empty() + spec_join(
                    lines@.subrange(0, lines@.len() as int),
                    lines@.len() as int,
                    '\n',
                ) =~= spec_join(
                    lines@.subrange(0, lines@.len() as int),
                    lines@.len() as int,
                    '\n',
                ));
                assert(find_first_marker_spec(lines@) is None);
            }
            Ok(DocParts { description, returns_description: None })
        },
        Some(m) => {
            if m < lines.len() - 1 {
                match find_marker(lines, m + 1) {
                    Some(_) => {
                        return Err(SpecError::MultipleReturnsSections);
                    },
                    None => {},
                }
            }
            let mut description = String::new();
            join_onto(&mut description, lines, 0, m, '\n');
            let description = trim(description.as_str());

            let line = &lines[m];
            let line_len = line.as_str().unicode_len();
            let mut rest = line.as_str().substring_char(8, line_len).to_owned();
            if m + 1 < lines.len() {
                push_char(&mut rest, '\n');
            }
            join_onto(&mut rest, lines, m + 1, lines.len(), '\n');
            let rest = trim(rest.as_str());
            proof {
                assert(Seq::<char>::empty() + spec_join(
                    lines@.subrange(0, m as int),
                    m as int,
                    '\n',
                ) =~= spec_join(lines@.subrange(0, m as int), m as int, '\n'));
                assert(lines@[m as int]@.subrange(8, lines@[m as int]@.len() as int)
                    =~= lines@[m as int]@.skip(8));
                if m + 1 < lines@.len() {
                    assert((Seq::<char>::empty() + lines@[m as int]@.skip(8)).push('\n')
                        =~= lines@[m as int]@.skip(8) + seq!['\n']);
                } else {
                    assert(Seq::<char>::empty() + lines@[m as int]@.skip(8) + spec_join(
                        lines@.subrange(m + 1, lines@.len() as int),
                        lines@.len() - m - 1,
                        '\n',
                    ) =~= lines@[m as int]@.skip(8));
                    assert(Seq::<char>::empty() + lines@[m as int]@.skip(8)
                        =~= lines@[m as int]@.skip(8));
                }
                // the first marker the search found is the spec's first marker
                assert(0 <= m < lines@.len() && spec_is_marker(lines@[m as int]) && (forall|k: int|
                    0 <= k < m ==> !spec_is_marker(#[trigger] lines@[k])));
                let w = choose|i: int|
                    0 <= i < lines@.len() && spec_is_marker(#[trigger] lines@[i]) && forall|k: int|
                        0 <= k < i ==> !spec_is_marker(#[trigger] lines@[k]);
                assert(find_first_marker_spec(lines@) == Some(w));
                assert(w == m as int);
            }
            Ok(DocParts { description, returns_description: Some(rest) })
        },
    }
}

/// The return-description text: the marker line's remainder after the
/// marker, then the following lines, newline-separated.
pub open spec fn spec_returns_text(lines: Seq<String>, m: int) -> Seq<char> {
    if m + 1 < lines.len() {
        (lines[m]@.skip(8) + seq!['\n']) + spec_join(
            lines.subrange(m + 1, lines.len() as int),
            lines.len() - m - 1,
            '\n',
        )
    } else {
        lines[m]@.skip(8)
    }
}

/// The first marker line, if any.
pub open spec fn find_first_marker_spec(lines: Seq<String>) -> Option<int> {
    if exists|i: int| 0 <= i < lines.len() && spec_is_marker(#[trigger] lines[i]) {
        Some(
            choose|i: int|
                0 <= i < lines.len() && spec_is_marker(#[trigger] lines[i]) && forall|k: int|
                    0 <= k < i ==> !spec_is_marker(#[trigger] lines[k]),
        )
    } else {
        None
    }
}

/// The description the documentation derives: the trimmed text before the
/// first marker line, or the whole trimmed text when no marker exists.
pub open spec fn spec_doc_description(lines: Seq<String>) -> Seq<char> {
    match find_first_marker_spec(lines) {
        None => spec_trim(spec_join(lines.subrange(0, lines.len() as int), lines.len() as int, '\n')),
        Some(m) => spec_trim(spec_join(lines.subrange(0, m), m, '\n')),
    }
}

/// The return description the documentation derives: the trimmed text from
/// after the first marker, when a marker line exists.
pub open spec fn spec_doc_returns(lines: Seq<String>) -> Option<Seq<char>> {
    match find_first_marker_spec(lines) {
        None => None,
        Some(m) => Some(spec_trim(spec_returns_text(lines, m))),
    }
}

} // verus!
