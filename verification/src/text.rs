//! Character-level operations on strings, specified over `Seq<char>`.

use vstd::prelude::*;
use vstd::string::*;

verus! {

/// `pattern` stands in `text` at position `at`.
pub open spec fn occurs_at(text: Seq<char>, pattern: Seq<char>, at: int) -> bool {
    &&& 0 <= at
    &&& at + pattern.len() <= text.len()
    &&& text.subrange(at, at + pattern.len()) == pattern
}

/// `pattern` stands somewhere in `text`.
pub open spec fn occurs_in(text: Seq<char>, pattern: Seq<char>) -> bool {
    exists|at: int| occurs_at(text, pattern, at)
}

/// `text` ends with `suffix`.
pub open spec fn has_suffix(text: Seq<char>, suffix: Seq<char>) -> bool {
    occurs_at(text, suffix, text.len() - suffix.len())
}

/// `text` with its last `suffix.len()` characters taken off.
pub open spec fn without_suffix(text: Seq<char>, suffix: Seq<char>) -> Seq<char>
    recommends
        suffix.len() <= text.len(),
{
    text.subrange(0, text.len() - suffix.len())
}

/// `text` with every occurrence of `pattern` replaced by `with`. Occurrences
/// are taken from the left and do not overlap: after one is replaced, the
/// scan goes on behind it and does not read what was put in. For an empty
/// pattern nothing is replaced.
pub open spec fn replaced(text: Seq<char>, pattern: Seq<char>, with: Seq<char>) -> Seq<char>
    decreases text.len(),
{
    if pattern.len() == 0 || text.len() < pattern.len() {
        text
    } else if occurs_at(text, pattern, 0) {
        with + replaced(text.skip(pattern.len() as int), pattern, with)
    } else {
        text.take(1) + replaced(text.skip(1), pattern, with)
    }
}

/// An occurrence of `pattern` cannot touch a `with` that stands in a text:
/// `pattern` neither begins nor ends with a character of `with`, and `with`
/// does not stand in `pattern`.
pub open spec fn keeps_apart(pattern: Seq<char>, with: Seq<char>) -> bool {
    &&& pattern.len() > 0
    &&& with.len() > 0
    &&& !with.contains(pattern.first())
    &&& !with.contains(pattern.last())
    &&& !occurs_in(pattern, with)
}

/// `pattern` stands at `at` exactly where each of its characters does.
pub proof fn lemma_occurs_at_each(text: Seq<char>, pattern: Seq<char>, at: int)
    ensures
        occurs_at(text, pattern, at) <==> (0 <= at && at + pattern.len() <= text.len() && forall|
            j: int,
        |
            0 <= j < pattern.len() ==> text[at + j] == #[trigger] pattern[j]),
{
    if 0 <= at && at + pattern.len() <= text.len() {
        let part = text.subrange(at, at + pattern.len());
        if part == pattern {
            assert forall|j: int| 0 <= j < pattern.len() implies text[at + j]
                == #[trigger] pattern[j] by {
                assert(part[j] == text[at + j]);
            }
        }
        if forall|j: int| 0 <= j < pattern.len() ==> text[at + j] == #[trigger] pattern[j] {
            assert(part =~= pattern);
        }
    }
}

/// A text in which the pattern does not stand is left as it is.
pub proof fn lemma_replaced_without_pattern(text: Seq<char>, pattern: Seq<char>, with: Seq<char>)
    requires
        !occurs_in(text, pattern),
    ensures
        replaced(text, pattern, with) == text,
    decreases text.len(),
{
    if pattern.len() == 0 || text.len() < pattern.len() {
    } else {
        assert(!occurs_at(text, pattern, 0));
        let rest = text.skip(1);
        assert forall|at: int| !occurs_at(rest, pattern, at) by {
            if occurs_at(rest, pattern, at) {
                assert(rest.subrange(at, at + pattern.len()) =~= text.subrange(
                    at + 1,
                    at + 1 + pattern.len(),
                ));
                assert(occurs_at(text, pattern, at + 1));
            }
        }
        lemma_replaced_without_pattern(rest, pattern, with);
        assert(text.take(1) + rest =~= text);
    }
}

/// Where the pattern stands in a text, what replaces it stands in the result.
pub proof fn lemma_replaced_holds_replacement(text: Seq<char>, pattern: Seq<char>, with: Seq<char>)
    requires
        pattern.len() > 0,
        occurs_in(text, pattern),
    ensures
        occurs_in(replaced(text, pattern, with), with),
    decreases text.len(),
{
    let found = choose|at: int| occurs_at(text, pattern, at);
    let result = replaced(text, pattern, with);
    if occurs_at(text, pattern, 0) {
        assert(result.subrange(0, with.len() as int) =~= with);
        assert(occurs_at(result, with, 0));
    } else {
        let rest = text.skip(1);
        assert(rest.subrange(found - 1, found - 1 + pattern.len()) =~= text.subrange(
            found,
            found + pattern.len(),
        ));
        assert(occurs_at(rest, pattern, found - 1));
        lemma_replaced_holds_replacement(rest, pattern, with);
        let behind = replaced(rest, pattern, with);
        let place = choose|at: int| occurs_at(behind, with, at);
        assert(result.subrange(place + 1, place + 1 + with.len()) =~= behind.subrange(
            place,
            place + with.len(),
        ));
        assert(occurs_at(result, with, place + 1));
    }
}

/// A text that begins with the pattern begins, once replaced, with what
/// replaces it, and the rest is replaced on its own.
pub proof fn lemma_replaced_at_start(rest: Seq<char>, pattern: Seq<char>, with: Seq<char>)
    requires
        pattern.len() > 0,
    ensures
        replaced(pattern + rest, pattern, with) == with + replaced(rest, pattern, with),
{
    let text = pattern + rest;
    assert(text.subrange(0, pattern.len() as int) =~= pattern);
    assert(text.skip(pattern.len() as int) =~= rest);
}

/// A stretch at the start of a text in which no occurrence of the pattern
/// begins is carried over as it is, and the rest is replaced on its own.
pub proof fn lemma_replaced_behind_clear_start(
    start: Seq<char>,
    rest: Seq<char>,
    pattern: Seq<char>,
    with: Seq<char>,
)
    requires
        forall|at: int| 0 <= at < start.len() ==> !occurs_at(start + rest, pattern, at),
    ensures
        replaced(start + rest, pattern, with) == start + replaced(rest, pattern, with),
    decreases start.len(),
{
    let text = start + rest;
    if start.len() == 0 {
        assert(text =~= rest);
        assert(start + replaced(rest, pattern, with) =~= replaced(rest, pattern, with));
    } else if pattern.len() == 0 || text.len() < pattern.len() {
    } else {
        assert(!occurs_at(text, pattern, 0));
        let shorter = start.skip(1);
        assert(text.skip(1) =~= shorter + rest);
        assert forall|at: int| 0 <= at < shorter.len() implies !occurs_at(
            shorter + rest,
            pattern,
            at,
        ) by {
            if occurs_at(shorter + rest, pattern, at) {
                assert((shorter + rest).subrange(at, at + pattern.len()) =~= text.subrange(
                    at + 1,
                    at + 1 + pattern.len(),
                ));
                assert(occurs_at(text, pattern, at + 1));
            }
        }
        lemma_replaced_behind_clear_start(shorter, rest, pattern, with);
        assert(text.take(1) + (shorter + replaced(rest, pattern, with)) =~= start + replaced(
            rest,
            pattern,
            with,
        ));
    }
}

/// The induction behind [`lemma_replaced_holds_no_pattern`]: `left` is what
/// the scan has written so far, `text` what it has still to read.
proof fn lemma_no_pattern_behind(
    left: Seq<char>,
    text: Seq<char>,
    pattern: Seq<char>,
    with: Seq<char>,
)
    requires
        keeps_apart(pattern, with),
        forall|at: int| 0 <= at < left.len() ==> !occurs_at(left + text, pattern, at),
    ensures
        forall|at: int| !occurs_at(left + replaced(text, pattern, with), pattern, at),
    decreases text.len(),
{
    let m = pattern.len() as int;
    if text.len() < m {
        assert forall|at: int| !occurs_at(left + text, pattern, at) by {}
    } else if occurs_at(text, pattern, 0) {
        let rest = text.skip(m);
        let written = left + with;
        assert forall|at: int| 0 <= at < written.len() implies !occurs_at(
            written + rest,
            pattern,
            at,
        ) by {
            if occurs_at(written + rest, pattern, at) {
                lemma_occurs_at_each(written + rest, pattern, at);
                if at >= left.len() {
                    assert((written + rest)[at + 0] == pattern[0]);
                    assert(with[at - left.len()] == pattern.first());
                } else if at + m <= left.len() {
                    assert forall|j: int| 0 <= j < m implies (left + text)[at + j]
                        == #[trigger] pattern[j] by {
                        assert((written + rest)[at + j] == pattern[j]);
                    }
                    lemma_occurs_at_each(left + text, pattern, at);
                } else if at + m <= written.len() {
                    assert((written + rest)[at + (m - 1)] == pattern[m - 1]);
                    assert(with[at + m - 1 - left.len()] == pattern.last());
                } else {
                    let inside = left.len() - at;
                    assert forall|j: int| 0 <= j < with.len() implies pattern[inside + j]
                        == #[trigger] with[j] by {
                        assert((written + rest)[at + (inside + j)] == pattern[inside + j]);
                    }
                    lemma_occurs_at_each(pattern, with, inside);
                    assert(occurs_at(pattern, with, inside));
                }
            }
        }
        lemma_no_pattern_behind(written, rest, pattern, with);
        assert(written + replaced(rest, pattern, with) =~= left + replaced(text, pattern, with));
    } else {
        let rest = text.skip(1);
        let written = left + text.take(1);
        assert(written + rest =~= left + text);
        assert forall|at: int| 0 <= at < written.len() implies !occurs_at(
            written + rest,
            pattern,
            at,
        ) by {
            if at == left.len() && occurs_at(left + text, pattern, at) {
                assert((left + text).subrange(at, at + m) =~= text.subrange(0, m));
            }
        }
        lemma_no_pattern_behind(written, rest, pattern, with);
        assert(written + replaced(rest, pattern, with) =~= left + replaced(text, pattern, with));
    }
}

/// Once every occurrence of a pattern is replaced, the pattern stands
/// nowhere in the result, provided that what replaces it keeps occurrences
/// apart: see [`keeps_apart`].
pub proof fn lemma_replaced_holds_no_pattern(text: Seq<char>, pattern: Seq<char>, with: Seq<char>)
    requires
        keeps_apart(pattern, with),
    ensures
        !occurs_in(replaced(text, pattern, with), pattern),
{
    let nothing = Seq::<char>::empty();
    assert(nothing + text =~= text);
    lemma_no_pattern_behind(nothing, text, pattern, with);
    assert(nothing + replaced(text, pattern, with) =~= replaced(text, pattern, with));
}

/// The character for one decimal digit.
pub open spec fn digit(d: nat) -> char
    recommends
        d < 10,
{
    ('0' as nat + d) as char
}

/// `n` in decimal, without leading zeros.
pub open spec fn decimal(n: nat) -> Seq<char>
    decreases n,
{
    if n < 10 {
        seq![digit(n)]
    } else {
        decimal(n / 10).push(digit(n % 10))
    }
}

/// The characters of `s`, in order.
pub fn chars_of(s: &str) -> (chars: Vec<char>)
    ensures
        chars@ == s@,
{
    let mut chars: Vec<char> = Vec::new();
    for c in it: s.chars()
        invariant
            chars@ == it.seq().take(it.index()),
            it.seq() == s@,
    {
        chars.push(c);
    }
    chars
}

/// Whether `pattern` stands in `text` at position `at`.
pub fn matches_at(text: &Vec<char>, pattern: &Vec<char>, at: usize) -> (found: bool)
    ensures
        found == occurs_at(text@, pattern@, at as int),
{
    if pattern.len() > text.len() || at > text.len() - pattern.len() {
        return false;
    }
    let mut j: usize = 0;
    while j < pattern.len()
        invariant
            j <= pattern.len(),
            at + pattern.len() <= text.len(),
            forall|k: int| 0 <= k < j ==> text@[at + k] == pattern@[k],
        decreases pattern.len() - j,
    {
        if text[at + j] != pattern[j] {
            assert(text@.subrange(at as int, at + pattern@.len())[j as int] != pattern@[j as int]);
            return false;
        }
        j += 1;
    }
    assert(text@.subrange(at as int, at + pattern@.len()) =~= pattern@);
    true
}

/// Whether `text` ends with `suffix`.
pub fn ends_with(text: &str, suffix: &str) -> (found: bool)
    ensures
        found == has_suffix(text@, suffix@),
{
    let chars = chars_of(text);
    let tail = chars_of(suffix);
    if tail.len() > chars.len() {
        false
    } else {
        matches_at(&chars, &tail, chars.len() - tail.len())
    }
}

/// `text` with every occurrence of `pattern` replaced by `with`, as
/// [`replaced`] defines it.
pub fn replace_all(text: &str, pattern: &str, with: &str) -> (out: String)
    ensures
        out@ == replaced(text@, pattern@, with@),
{
    let chars = chars_of(text);
    let sought = chars_of(pattern);
    let n = chars.len();
    let m = sought.len();
    if m == 0 || n < m {
        return String::from_str(text);
    }
    let mut out = String::new();
    // `kept` is where the stretch of unmatched text that is not yet in `out` begins.
    let mut kept: usize = 0;
    let mut i: usize = 0;
    proof {
        assert(text@.skip(0) =~= text@);
        assert(out@ + text@.subrange(0, 0) =~= Seq::<char>::empty());
    }
    while i <= n - m
        invariant
            chars@ == text@,
            sought@ == pattern@,
            n == chars.len(),
            m == sought.len(),
            0 < m <= n,
            kept <= i <= n,
            replaced(text@, pattern@, with@) == out@ + text@.subrange(kept as int, i as int)
                + replaced(text@.skip(i as int), pattern@, with@),
        decreases n - i,
    {
        let ghost rest = text@.skip(i as int);
        assert(occurs_at(rest, pattern@, 0) == occurs_at(text@, pattern@, i as int)) by {
            assert(rest.subrange(0, m as int) =~= text@.subrange(i as int, i + m));
        }
        if matches_at(&chars, &sought, i) {
            out.append(text.substring_char(kept, i));
            out.append(with);
            proof {
                assert(rest.skip(m as int) =~= text@.skip(i + m));
                assert(text@.subrange(i + m, i + m) =~= Seq::<char>::empty());
                assert(out@ + text@.subrange(i + m, i + m) =~= out@);
            }
            i += m;
            kept = i;
        } else {
            proof {
                assert(rest.skip(1) =~= text@.skip(i + 1));
                assert(text@.subrange(kept as int, i as int) + rest.take(1) =~= text@.subrange(
                    kept as int,
                    i + 1,
                ));
            }
            i += 1;
        }
    }
    out.append(text.substring_char(kept, n));
    proof {
        assert(text@.subrange(kept as int, i as int) + text@.skip(i as int) =~= text@.subrange(
            kept as int,
            n as int,
        ));
    }
    out
}

/// One decimal digit as text.
fn digit_text(d: u16) -> (text: &'static str)
    requires
        d < 10,
    ensures
        text@ == seq![digit(d as nat)],
{
    proof {
        reveal_strlit("0");
        reveal_strlit("1");
        reveal_strlit("2");
        reveal_strlit("3");
        reveal_strlit("4");
        reveal_strlit("5");
        reveal_strlit("6");
        reveal_strlit("7");
        reveal_strlit("8");
        reveal_strlit("9");
    }
    let text = match d {
        0 => "0",
        1 => "1",
        2 => "2",
        3 => "3",
        4 => "4",
        5 => "5",
        6 => "6",
        7 => "7",
        8 => "8",
        _ => "9",
    };
    assert(text@ =~= seq![digit(d as nat)]);
    text
}

/// `n` in decimal, without leading zeros.
pub fn decimal_text(n: u16) -> (text: String)
    ensures
        text@ == decimal(n as nat),
    decreases n,
{
    if n < 10 {
        String::from_str(digit_text(n))
    } else {
        let mut text = decimal_text(n / 10);
        text.append(digit_text(n % 10));
        text
    }
}

} // verus!
